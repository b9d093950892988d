use exerciser::oracle::DurabilityModel;

#[test]
fn merge_into_empty_takes_the_log() {
    let mut m = DurabilityModel::new();
    let log: Vec<u64> = vec![0, 1, 2];
    assert_eq!(m.merge(&log), Ok(()));
    assert_eq!(m.observed, vec![0, 1, 2]);
}

#[test]
fn merge_keeps_the_longest_agreeing_log() {
    let mut m = DurabilityModel::new();
    let first: Vec<u64> = vec![0];
    let longer: Vec<u64> = vec![0, 1, 2];
    let shorter: Vec<u64> = vec![0, 1];
    assert_eq!(m.merge(&first), Ok(()));
    assert_eq!(m.observed, vec![0]);
    assert_eq!(m.merge(&longer), Ok(()));
    assert_eq!(m.observed, vec![0, 1, 2]);
    assert_eq!(m.merge(&shorter), Ok(()));
    assert_eq!(m.observed, vec![0, 1, 2]);
}

#[test]
fn merge_reports_the_first_divergence() {
    let mut m = DurabilityModel::new();
    let a: Vec<u64> = vec![0, 1, 2];
    let b: Vec<u64> = vec![0, 7, 2];
    assert_eq!(m.merge(&a), Ok(()));
    assert_eq!(m.merge(&b), Err(1));
    assert_eq!(m.observed, vec![0, 1, 2]);
}

#[test]
fn merge_never_shrinks_the_order() {
    let mut m = DurabilityModel::new();
    let long: Vec<u64> = vec![5, 6, 7, 8];
    let short: Vec<u64> = vec![5];
    assert_eq!(m.merge(&long), Ok(()));
    assert_eq!(m.merge(&short), Ok(()));
    assert_eq!(m.observed.len(), 4);
}
