//! Batch transitive closure against incremental ancestry, on fixed and on
//! randomized DAGs, and the original random-walk construction.

use hashgraph::graph::Graph;

/// A small deterministic linear congruential generator, so that the
/// randomized DAGs are reproducible.
struct Lcg {
    state: u64,
}

impl Lcg {
    fn new(seed: u64) -> Self {
        Lcg { state: seed }
    }

    fn next(&mut self) -> u64 {
        self.state = self
            .state
            .wrapping_mul(6364136223846793005)
            .wrapping_add(1442695040888963407);
        self.state >> 33
    }

    fn below(&mut self, bound: u64) -> u64 {
        self.next() % bound
    }
}

fn check_matrix_agrees(g: &Graph) {
    let n = g.event_count();
    let m = g.reachability_matrix();
    assert_eq!(m.len(), n);
    for i in 0..n {
        assert_eq!(m[i].len(), n);
        for j in 0..n {
            assert_eq!(
                m[i][j],
                g.is_ancestor(i + 1, j + 1).unwrap(),
                "closure and incremental ancestry disagree at ({}, {})",
                i + 1,
                j + 1
            );
        }
    }
}

#[test]
fn closure_matches_incremental_on_small_graph() {
    let mut g = Graph::new();
    g.add_event(0, None, None, Vec::new()).unwrap();
    g.add_event(1, None, None, Vec::new()).unwrap();
    g.add_event(2, Some(1), Some(2), Vec::new()).unwrap();
    g.add_event(1, Some(2), Some(3), Vec::new()).unwrap();
    check_matrix_agrees(&g);
}

#[test]
fn closure_matches_incremental_on_randomized_dags() {
    let num_creators = 3u64;
    let num_events = 200usize;
    for seed in [11u64, 29, 47] {
        let mut rng = Lcg::new(seed);
        let mut g = Graph::new();
        for c in 0..num_creators {
            g.add_event(c as u32, None, None, Vec::new()).unwrap();
        }
        while g.event_count() < num_events {
            let n = g.event_count() as u64;
            let creator = rng.below(num_creators) as u32;
            let sp = (rng.below(n) + 1) as usize;
            let op = if rng.below(4) == 0 {
                None
            } else {
                Some((rng.below(n) + 1) as usize)
            };
            g.add_event(creator, Some(sp), op, Vec::new()).unwrap();
        }
        check_matrix_agrees(&g);
    }
}

// Create a single graph as a random walk of events from one creator to the
// next.
#[test]
fn random_walk() {
    let num_steps = 200;
    let num_creators = 3;

    let mut g = Graph::new();
    let mut rng = Lcg::new(2024);

    for i in 0..num_creators {
        g.add_event(i as u32, None, None, Vec::new()).unwrap();
    }

    for eid in num_creators..num_steps {
        // Chose a random receiver
        let rnd: usize = rng.next() as usize;

        g.add_event(
            (rnd % num_creators) as u32,
            Some(eid - 1),
            Some(eid),
            Vec::new(),
        )
        .unwrap();
    }
    check_matrix_agrees(&g);
}
