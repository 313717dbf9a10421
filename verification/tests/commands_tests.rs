use opentainer_core::commands::{
    container_action_decision, stats_entry, validate_ids, ContainerOp,
};

#[test]
fn container_action_maps_the_four_known_words() {
    assert_eq!(
        container_action_decision("web", "start"),
        Ok(ContainerOp::Start)
    );
    assert_eq!(
        container_action_decision("web", "stop"),
        Ok(ContainerOp::Stop)
    );
    assert_eq!(
        container_action_decision("web", "restart"),
        Ok(ContainerOp::Restart)
    );
    assert_eq!(
        container_action_decision("web", "remove"),
        Ok(ContainerOp::Remove)
    );
}

#[test]
fn container_action_rejects_unknown_action() {
    assert_eq!(
        container_action_decision("web", "pause"),
        Err("Invalid action".to_string())
    );
    assert_eq!(
        container_action_decision("web", ""),
        Err("Invalid action".to_string())
    );
    assert_eq!(
        container_action_decision("web", "Start"),
        Err("Invalid action".to_string())
    );
}

#[test]
fn container_action_validates_the_id_first() {
    let err = container_action_decision("bad;id", "start").unwrap_err();
    assert_eq!(err, "Invalid identifier: bad;id");
    let err2 = container_action_decision("", "pause").unwrap_err();
    assert_eq!(err2, "Identifier cannot be empty");
}

#[test]
fn batch_validation_reports_the_first_bad_id() {
    let ids = vec!["ok1".to_string(), "ok2".to_string()];
    assert!(validate_ids(&ids).is_ok());
    let mixed = vec![
        "ok1".to_string(),
        "bad$id".to_string(),
        "".to_string(),
    ];
    assert_eq!(
        validate_ids(&mixed),
        Err("Invalid identifier: bad$id".to_string())
    );
    assert!(validate_ids(&Vec::new()).is_ok());
}

#[test]
fn batch_stats_fan_out_collates_every_outcome() {
    // Five containers: three answer, two fail — five entries with matching
    // success bits.
    let outcomes: Vec<(String, Option<Result<u32, String>>)> = vec![
        ("c1".to_string(), Some(Ok(11))),
        ("c2".to_string(), Some(Err("unreachable".to_string()))),
        ("c3".to_string(), Some(Ok(33))),
        ("c4".to_string(), None),
        ("c5".to_string(), Some(Ok(55))),
    ];
    let results: Vec<_> = outcomes
        .into_iter()
        .map(|(id, o)| stats_entry(id, o))
        .collect();
    assert_eq!(results.len(), 5);
    let bits: Vec<bool> = results.iter().map(|r| r.success).collect();
    assert_eq!(bits, vec![true, false, true, false, true]);
    assert_eq!(results[0].data, Some(11));
    assert_eq!(results[1].error, Some("unreachable".to_string()));
    assert_eq!(results[3].error, Some("No stats found".to_string()));
    for r in &results {
        assert_eq!(r.success, r.error.is_none());
        if !r.success {
            assert!(r.data.is_none());
        }
    }
}
