use exerciser::ids::{idgen, IdGen};

#[test]
fn identifiers_count_up_from_zero() {
    let mut g = IdGen::new();
    assert_eq!(idgen(&mut g), 0);
    assert_eq!(idgen(&mut g), 1);
    assert_eq!(idgen(&mut g), 2);
}

#[test]
fn identifiers_are_unique_and_increasing() {
    let mut g = IdGen::new();
    let mut last = None;
    for _ in 0..100 {
        let id = idgen(&mut g);
        if let Some(prev) = last {
            assert!(prev < id);
        }
        last = Some(id);
    }
}
