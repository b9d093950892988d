use exerciser::cluster::{Action, Cluster};

#[test]
fn same_seed_replays_the_same_actions() {
    let mut a = Cluster::start(3, 2, Some(42));
    let mut b = Cluster::start(3, 2, Some(42));
    for _ in 0..300 {
        assert_eq!(a.step_decide(), b.step_decide());
    }
}

#[test]
fn different_seeds_diverge() {
    let mut a = Cluster::start(3, 2, Some(1));
    let mut b = Cluster::start(3, 2, Some(2));
    let mut same = true;
    for _ in 0..300 {
        if a.step_decide() != b.step_decide() {
            same = false;
        }
    }
    assert!(!same);
}

#[test]
fn chosen_targets_stay_in_range() {
    let mut c = Cluster::start(3, 2, Some(7));
    for _ in 0..500 {
        match c.step_decide() {
            Action::RestartServer { idx } => assert!(idx < 3),
            Action::PauseServer { idx } => assert!(idx < 3),
            Action::ResumeServer { idx } => assert!(idx < 3),
            Action::Publish { client, id: _ } => assert!(client < 2),
            Action::Consume { client } => assert!(client < 2),
            Action::PauseNoop | Action::ResumeNoop => {}
        }
    }
}

#[test]
fn pause_then_resume_leaves_nothing_paused() {
    let mut c = Cluster::start(1, 1, Some(5));
    assert_eq!(c.pause_server(), Action::PauseServer { idx: 0 });
    assert!(c.paused[0]);
    assert_eq!(c.resume_server(), Action::ResumeServer { idx: 0 });
    assert!(!c.paused[0]);
}

#[test]
fn pause_is_a_noop_once_everything_is_paused() {
    let mut c = Cluster::start(2, 1, Some(9));
    let first = c.pause_server();
    let second = c.pause_server();
    assert!(matches!(first, Action::PauseServer { .. }));
    assert!(matches!(second, Action::PauseServer { .. }));
    assert_ne!(first, second);
    assert!(c.paused[0] && c.paused[1]);
    assert_eq!(c.pause_server(), Action::PauseNoop);
}

#[test]
fn resume_is_a_noop_when_nothing_is_paused() {
    let mut c = Cluster::start(2, 1, Some(9));
    assert_eq!(c.resume_server(), Action::ResumeNoop);
}

#[test]
fn restart_clears_the_paused_mark() {
    let mut c = Cluster::start(1, 1, Some(3));
    assert_eq!(c.pause_server(), Action::PauseServer { idx: 0 });
    assert_eq!(c.restart_server(), Action::RestartServer { idx: 0 });
    assert!(!c.paused[0]);
}

#[test]
fn identifiers_continue_increasing_across_a_restart() {
    let mut c = Cluster::start(1, 1, Some(3));
    let a = match c.publish() {
        Action::Publish { client: _, id } => id,
        other => panic!("expected a publish, got {:?}", other),
    };
    c.restart_server();
    let b = match c.publish() {
        Action::Publish { client: _, id } => id,
        other => panic!("expected a publish, got {:?}", other),
    };
    assert_eq!(a, 0);
    assert_eq!(b, 1);
    assert!(a < b);
}

#[test]
fn a_single_consumer_run_validates_and_fills_the_oracle() {
    let mut c = Cluster::start(1, 1, Some(42));
    for id in 0..3u64 {
        c.record_consume(0, id);
        assert!(c.validate().is_ok());
    }
    assert_eq!(c.durability_model.observed, vec![0, 1, 2]);
    assert_eq!(c.durability_model.observed.len(), c.clients[0].observed.len());
}

#[test]
fn two_consumers_agree_on_the_shared_prefix() {
    let mut c = Cluster::start(1, 2, Some(8));
    for id in 0..10u64 {
        c.record_consume(0, id);
        c.record_consume(1, id);
        assert!(c.validate().is_ok());
    }
    assert_eq!(c.clients[0].observed, c.clients[1].observed);
    assert_eq!(c.clients[0].observed.len(), 10);
}

#[test]
fn the_oracle_tracks_the_longest_log() {
    let mut c = Cluster::start(1, 2, Some(8));
    c.record_consume(0, 0);
    c.record_consume(0, 1);
    c.record_consume(0, 2);
    c.record_consume(1, 0);
    c.record_consume(1, 1);
    assert!(c.validate().is_ok());
    assert_eq!(c.durability_model.observed, vec![0, 1, 2]);
}

#[test]
fn a_divergent_consumer_is_reported_with_both_prefixes() {
    let mut c = Cluster::start(1, 2, Some(1));
    c.record_consume(0, 10);
    assert!(c.validate().is_ok());
    c.record_consume(1, 99);
    let d = c.validate().err().expect("the logs diverge");
    assert_eq!(d.consumer, 1);
    assert_eq!(d.expected, vec![10]);
    assert_eq!(d.log, vec![99]);
}

#[test]
fn a_fresh_seed_still_starts_a_cluster() {
    let c = Cluster::start(3, 2, None);
    assert_eq!(c.servers.len(), 3);
    assert_eq!(c.clients.len(), 2);
    assert_eq!(c.servers[1].port, 44001);
    assert_eq!(c.servers[2].idx, 2);
}

#[test]
fn consumers_bind_round_robin() {
    assert_eq!(exerciser::bound_server(0, 3), 0);
    assert_eq!(exerciser::bound_server(1, 3), 1);
    assert_eq!(exerciser::bound_server(2, 3), 2);
    assert_eq!(exerciser::bound_server(3, 3), 0);
    assert_eq!(exerciser::bound_server(4, 3), 1);
}
