use road7::load_balancer::{LoadBalancer, LoadBalancingAlgorithm};

fn create_test_load_balancer(algorithm: LoadBalancingAlgorithm) -> LoadBalancer {
    let targets = vec![(
        "/api".to_string(),
        vec!["http://localhost:8080".to_string(), "http://localhost:8081".to_string()],
    )];
    let weights = Some(vec![("/api".to_string(), vec![3, 1])]);
    LoadBalancer::new(targets, algorithm, weights)
}

#[test]
fn test_round_robin() {
    let mut lb = create_test_load_balancer(LoadBalancingAlgorithm::RoundRobin);

    let target1 = lb.get_target("/api/resource", None).unwrap();
    let target2 = lb.get_target("/api/resource", None).unwrap();
    let target3 = lb.get_target("/api/resource", None).unwrap();

    assert_eq!(target1, "http://localhost:8080");
    assert_eq!(target2, "http://localhost:8081");
    assert_eq!(target3, "http://localhost:8080");
}

#[test]
fn test_random() {
    let mut lb = create_test_load_balancer(LoadBalancingAlgorithm::Random);

    let target1 = lb.get_target("/api/resource", None).unwrap();
    let target2 = lb.get_target("/api/resource", None).unwrap();

    assert!(["http://localhost:8080", "http://localhost:8081"].contains(&target1.as_str()));
    assert!(["http://localhost:8080", "http://localhost:8081"].contains(&target2.as_str()));
}

#[test]
fn test_least_connections() {
    let mut lb = create_test_load_balancer(LoadBalancingAlgorithm::LeastConnections);

    let target1 = lb.get_target("/api/resource", None).unwrap();
    let target2 = lb.get_target("/api/resource", None).unwrap();

    assert_eq!(target1, "http://localhost:8080");
    assert_eq!(target2, "http://localhost:8081");
}

#[test]
fn test_weighted_round_robin() {
    let mut lb = create_test_load_balancer(LoadBalancingAlgorithm::WeightedRoundRobin);

    let target1 = lb.get_target("/api/resource", None).unwrap();
    let target2 = lb.get_target("/api/resource", None).unwrap();
    let target3 = lb.get_target("/api/resource", None).unwrap();
    let target4 = lb.get_target("/api/resource", None).unwrap();

    assert_eq!(target1, "http://localhost:8080");
    assert_eq!(target2, "http://localhost:8080");
    assert_eq!(target3, "http://localhost:8080");
    assert_eq!(target4, "http://localhost:8081");
}

#[test]
fn test_ip_hash() {
    let mut lb = create_test_load_balancer(LoadBalancingAlgorithm::IPHash);

    let target1 = lb.get_target("/api/resource", Some("192.168.1.1")).unwrap();
    let target2 = lb.get_target("/api/resource", Some("192.168.1.2")).unwrap();

    assert!(["http://localhost:8080", "http://localhost:8081"].contains(&target1.as_str()));
    assert!(["http://localhost:8080", "http://localhost:8081"].contains(&target2.as_str()));
    assert_ne!(target1, target2);
}

#[test]
fn test_consistent_hashing() {
    let mut lb = create_test_load_balancer(LoadBalancingAlgorithm::ConsistentHashing);

    let target1 = lb.get_target("/api/resource", Some("192.168.1.1")).unwrap();
    let target2 = lb.get_target("/api/resource", Some("192.168.1.2")).unwrap();

    assert!(["http://localhost:8080", "http://localhost:8081"].contains(&target1.as_str()));
    assert!(["http://localhost:8080", "http://localhost:8081"].contains(&target2.as_str()));
    assert_ne!(target1, target2);
}

#[test]
fn test_weighted_least_connections() {
    let mut lb = create_test_load_balancer(LoadBalancingAlgorithm::WeightedLeastConnections);

    let _target1 = lb.get_target("/api/resource", None).unwrap();
    let _target2 = lb.get_target("/api/resource", None).unwrap();

    let mut count_8080 = 0;
    let mut count_8081 = 0;

    for _ in 0..100 {
        let target = lb.get_target("/api/resource", None).unwrap();
        if target == "http://localhost:8080" {
            count_8080 += 1;
        } else if target == "http://localhost:8081" {
            count_8081 += 1;
        }
    }

    assert!(count_8080 > count_8081 * 3 / 4);
}

#[test]
fn hash_algorithms_are_sticky() {
    let mut lb = create_test_load_balancer(LoadBalancingAlgorithm::ConsistentHashing);
    let first = lb.get_target("/api/x", Some("10.1.2.3")).unwrap();
    for _ in 0..5 {
        assert_eq!(lb.get_target("/api/y", Some("10.1.2.3")).unwrap(), first);
    }
}

#[test]
fn hash_algorithms_without_address_find_nothing() {
    let mut lb = create_test_load_balancer(LoadBalancingAlgorithm::IPHash);
    assert!(lb.can_serve("/api/x", None));
    assert_eq!(lb.get_target("/api/x", None), None);
}

#[test]
fn unknown_prefix_finds_nothing() {
    let mut lb = create_test_load_balancer(LoadBalancingAlgorithm::RoundRobin);
    assert_eq!(lb.get_target("/other", None), None);
}

#[test]
fn weighted_least_connections_follows_weights() {
    let mut lb = create_test_load_balancer(LoadBalancingAlgorithm::WeightedLeastConnections);
    let picks: Vec<String> = (0..8).map(|_| lb.get_target("/api", None).unwrap()).collect();
    let n8080 = picks.iter().filter(|t| t.as_str() == "http://localhost:8080").count();
    assert_eq!(n8080, 6);
}

#[test]
fn random_pick_is_reproducible() {
    let mut lb = create_test_load_balancer(LoadBalancingAlgorithm::Random);
    assert_eq!(lb.get_target_with_pick("/api", None, 3).unwrap(), "http://localhost:8081");
    assert_eq!(lb.get_target_with_pick("/api", None, 4).unwrap(), "http://localhost:8080");
}

#[test]
fn weighted_round_robin_repeats_its_cycle() {
    let mut lb = create_test_load_balancer(LoadBalancingAlgorithm::WeightedRoundRobin);
    let picks: Vec<String> = (0..8).map(|_| lb.get_target("/api/x", None).unwrap()).collect();
    let a = "http://localhost:8080";
    let b = "http://localhost:8081";
    assert_eq!(picks, vec![a, a, a, b, a, a, a, b]);
}

#[test]
fn round_robin_cycles_over_many_calls() {
    let mut lb = create_test_load_balancer(LoadBalancingAlgorithm::RoundRobin);
    for j in 0..7 {
        let expected = if j % 2 == 0 { "http://localhost:8080" } else { "http://localhost:8081" };
        assert_eq!(lb.get_target("/api/x", None).unwrap(), expected);
    }
}

#[test]
fn least_connections_evens_out_the_counts() {
    let mut lb = create_test_load_balancer(LoadBalancingAlgorithm::LeastConnections);
    let picks: Vec<String> = (0..6).map(|_| lb.get_target("/api/x", None).unwrap()).collect();
    let first = picks.iter().filter(|p| p.as_str() == "http://localhost:8080").count();
    assert_eq!(first, 3);
    assert_eq!(picks[0], "http://localhost:8080");
    assert_eq!(picks[1], "http://localhost:8081");
}

#[test]
fn chosen_url_belongs_to_a_matching_prefix() {
    let targets = vec![
        ("/a".to_string(), vec!["http://a1".to_string()]),
        ("/b".to_string(), vec!["http://b1".to_string(), "http://b2".to_string()]),
    ];
    let mut lb = LoadBalancer::new(targets, LoadBalancingAlgorithm::RoundRobin, None);
    assert_eq!(lb.get_target("/b/x", None).unwrap(), "http://b1");
    assert_eq!(lb.get_target("/a/x", None).unwrap(), "http://a1");
    assert_eq!(lb.get_target("/c", None), None);
}
