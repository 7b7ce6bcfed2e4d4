//! Route tests over the integration track: walkability, the chosen
//! transitions, and the wrap-around of closed routes.
use liketrain::direction::Direction;
use liketrain::eval::Evaluator;
use liketrain::parser::parser;
use liketrain::route::Route;
use liketrain::section::SectionId;
use liketrain::track::Track;

const TTL: &str = r#"

        S23:    -> switch(M)            | <- back(N, right)
        S25:    -> back(L, left)        | <- back(M, right)
        S26:    -> none                 | <- back(M, left)
        S22:    -> switch(N)            | <- switch(O)
        S8:     -> back(O, right)       | <- back(E, right)
        S21:    -> back(O, left)        | <- switch(P)
        S24:    -> back(N, left)        | <- back(P, right)
        S20:    -> back(L, right)       | <- back(P, left)
        S13:    -> back(J, left)        | <- switch(L)


        S11:    -> back(K, left)        | <- switch(J)
        S10:    -> back(B, left)        | <- switch(K)
        S9:     -> switch(C)            | <- switch(B)
        S16:    -> switch(H)            | <- back(C, right)
        S14:    -> switch(I)            | <- back(H, right)
        S15:    -> none                 | <- back(H, left)
        S12:    -> back(K, right)       | <- back(I, left)

        switch(I, right)                 -> switch(J, right)

        S3:     -> switch(E)            | <- switch(D)
        S4:     -> back(D, right)       | <- back(A, left)

        switch(D, left)                 -> switch(C, left)
        switch(A, right)                -> switch(B, right)

        S5:     -> switch(A)            | <- switch(G)
        S6:     -> back(G, right)       | <- none
        S7:     -> back(G, left)        | <- back(F, right)
        S1:     -> none                 | <- back(F, left)
        S2:     -> switch(F)            | <- back(E, left)


    "#;

fn vias(ids: &[usize]) -> Vec<SectionId> {
    ids.iter().map(|&id| SectionId::new(id)).collect()
}

fn integration_track() -> Track {
    let track_defs = parser(TTL).unwrap();
    Evaluator::default().evaluate(track_defs).unwrap()
}

#[test]
fn test_route_validation() {
    let track = integration_track();

    let Some(r1) = Route::new(vias(&[24, 22, 21, 24]), Direction::Forward, &track) else {
        assert!(false, "Route 1 failed");
        return;
    };

    println!("Route 1 valid: {}", r1.pretty_print(&track));

    let Some(r2) = Route::new(
        vias(&[24, 22, 8, 3, 9, 10, 11, 13, 25, 23]),
        Direction::Forward,
        &track,
    ) else {
        assert!(false, "Route 2 failed");
        return;
    };

    println!("Route 2 valid: {}", r2.pretty_print(&track));
}

#[test]
fn route_walk_destinations() {
    // The closed loop 24 -> 22 -> 21 -> 24, walked forward.
    let track = integration_track();
    let route = Route::new(vias(&[24, 22, 21, 24]), Direction::Forward, &track).unwrap();
    assert!(route.is_closed());
    assert_eq!(route.transition(0).unwrap().destination().as_usize(), 22);
    assert_eq!(route.transition(1).unwrap().destination().as_usize(), 21);
    assert_eq!(route.transition(2).unwrap().destination().as_usize(), 24);
    assert!(route.transition(3).is_none());
    assert_eq!(route.starting_direction(), Direction::Forward);
}

#[test]
fn closed_route_via_wraps() {
    let track = integration_track();
    let route = Route::new(vias(&[24, 22, 21, 24]), Direction::Forward, &track).unwrap();
    assert_eq!(route.via(0).unwrap().as_usize(), 24);
    assert_eq!(route.via(1).unwrap().as_usize(), 22);
    assert_eq!(route.via(2).unwrap().as_usize(), 21);
    // a closed route wraps, skipping the duplicated last via
    assert_eq!(route.via(3).unwrap().as_usize(), 24);
    assert_eq!(route.via(4).unwrap().as_usize(), 22);
}

#[test]
fn unwalkable_route_is_rejected() {
    let track = integration_track();
    // S26 dead-ends forward; there is no way onward to S21
    assert!(Route::new(vias(&[26, 21]), Direction::Forward, &track).is_none());
    // unknown sections cannot be walked
    assert!(Route::new(vias(&[99, 21]), Direction::Forward, &track).is_none());
}

#[test]
fn route_pretty_print_exact() {
    let defs = parser("S1: -> direct(S2) | <- none\nS2: -> none | <- direct(S1)").unwrap();
    let track = Evaluator::default().evaluate(defs).unwrap();
    let route = Route::new(vias(&[1, 2]), Direction::Forward, &track).unwrap();
    assert_eq!(
        route.pretty_print(&track),
        "section S1 (driving forward) -> section S2 (end) "
    );
}

#[test]
fn open_route_via_does_not_wrap() {
    let track = integration_track();
    let route = Route::new(vias(&[24, 22, 21]), Direction::Forward, &track).unwrap();
    assert!(!route.is_closed());
    assert_eq!(route.via(2).unwrap().as_usize(), 21);
    assert!(route.via(3).is_none());
}
