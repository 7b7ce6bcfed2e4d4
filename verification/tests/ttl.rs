//! Track description language tests: the parser on real sources, the
//! evaluator's graph, and the single-assignment rules for switch ports.
use liketrain::direction::Direction;
use liketrain::eval::{EvaluationError, Evaluator};
use liketrain::parser::{parser, ConnectionExpr, TrackDefinition};
use liketrain::switch::SwitchState;

#[test]
fn test_parser() {
    let input = r#"
        S23: -> switch(M) | <- back(N, right)
        S25: -> back(L, left) | <- back(M, right)
        S26: -> none | <- back(M, left)
        S22: -> switch(N) | <- switch(O)
        S8: -> back(O, right) | <- none
        S21: -> back(O, left) | <- switch(P)
        S24: -> back(N, left) | <- back(P, right)
        S20: -> back(L, right) | <- back(P, left)
        S13: -> none | <- switch(L)

        S11:    -> back(K, left)        | <- switch(J)
        S10:    -> back(B, left)        | <- switch(K)
        S9:     -> switch(C)            | <- switch(B)
        S16:    -> switch(H)            | <- back(C, right)
        S14:    -> switch(I)            | <- back(H, right)
        S15:    -> none                 | <- back(H, left)
        S12:    -> back(K, right)       | <- back(I, left)

        switch(I, left) -> switch(J, right)
    "#;

    let result = parser(input);

    match result {
        Ok(sections) => {
            assert_eq!(sections.len(), 17);
            for section in sections {
                println!("Section: {:?}", section);
            }
        }
        Err(error) => {
            println!("Error: {:?}", error);
            panic!("the source should parse");
        }
    }
}

#[test]
fn test_eval() {
    let input = r#"

        S23:    -> switch(M)            | <- back(N, right)
        S25:    -> back(L, left)        | <- back(M, right)
        S26:    -> none                 | <- back(M, left)
        S22:    -> switch(N)            | <- switch(O)
        S8:     -> back(O, right)       | <- back(E, right)
        S21:    -> back(O, left)        | <- switch(P)
        S24:    -> back(N, left)        | <- back(P, right)
        S20:    -> back(L, right)       | <- back(P, left)
        S13:    -> back(J, left)        | <- switch(L)


        S11:    -> back(K, left)        | <- switch(J)
        S10:    -> back(B, left)        | <- switch(K)
        S9:     -> switch(C)            | <- switch(B)
        S16:    -> switch(H)            | <- back(C, right)
        S14:    -> switch(I)            | <- back(H, right)
        S15:    -> none                 | <- back(H, left)
        S12:    -> back(K, right)       | <- back(I, left)

        switch(I, right)                 -> switch(J, right)

        S3:     -> switch(E)            | <- switch(D)
        S4:     -> back(D, right)       | <- back(A, left)

        switch(D, left)                 -> switch(C, left)
        switch(A, right)                -> switch(B, right)

        S5:     -> switch(A)            | <- switch(G)
        S6:     -> back(G, right)       | <- none
        S7:     -> back(G, left)        | <- back(F, right)
        S1:     -> none                 | <- back(F, left)
        S2:     -> switch(F)            | <- back(E, left)


    "#;

    let result = parser(input);
    let track_defs = result.unwrap();

    let eval = Evaluator::default();
    let track = eval.evaluate(track_defs);

    match track {
        Ok(track) => {
            let section_id = track.section_id(&String::from("S14")).unwrap();
            let section = track.section(&section_id).unwrap();
            assert_eq!(section.name(), "S14");

            let direction = Direction::Forward;

            let transitions = track.transitions(section_id, direction).unwrap();
            // S14 feeds switch I: its right branch is linked back-to-back
            // with switch J, whose pole is S11's backward end; the left
            // branch is S12's backward end.
            assert_eq!(transitions.len(), 2);
            println!(
                "transitions from section {} going forward:\n{}",
                section.name(),
                liketrain::transition::SectionTransition::pretty_print_iter(&transitions, &track)
            );
        }
        Err(error) => {
            println!("Error: {:?}", error);
            panic!("the source should evaluate");
        }
    }
}

#[test]
fn parse_shapes() {
    let defs = parser("S1: -> direct(S2) | <- none").unwrap();
    assert_eq!(defs.len(), 1);
    match &defs[0] {
        TrackDefinition::Section(sd) => {
            assert_eq!(sd.section_id.as_usize(), 1);
            match &sd.forward {
                ConnectionExpr::Direct { to } => assert_eq!(to.as_usize(), 2),
                _ => panic!("expected a direct connection"),
            }
            assert!(matches!(sd.backward, ConnectionExpr::Dead));
        }
        _ => panic!("expected a section definition"),
    }

    let defs = parser("switch(A, left) -> switch(B, right)").unwrap();
    match &defs[0] {
        TrackDefinition::Switch(link) => {
            assert_eq!(link.from.switch_name, b"A".to_vec());
            assert_eq!(link.from.state, SwitchState::Left);
            assert_eq!(link.to.switch_name, b"B".to_vec());
            assert_eq!(link.to.state, SwitchState::Right);
        }
        _ => panic!("expected a switch link"),
    }
}

#[test]
fn parse_comments_and_errors() {
    let defs = parser("# a comment line\nS1: -> none | <- none # trailing\n").unwrap();
    assert_eq!(defs.len(), 1);

    assert!(parser("S1: -> nowhere | <- none").is_err());
    assert!(parser("S1 -> none | <- none").is_err());
    assert!(parser("garbage").is_err());
}

#[test]
fn evaluator_rejects_double_switch_assignment() {
    // two sections claim the same switch pole
    let defs = parser("S1: -> switch(A) | <- none\nS2: -> switch(A) | <- none").unwrap();
    match Evaluator::default().evaluate(defs) {
        Err(EvaluationError::SwitchFromAlreadyConnected(name)) => assert_eq!(name, "A"),
        _ => panic!("expected the pole to be claimed once"),
    }

    // two sections claim the same switch branch
    let defs = parser("S1: -> back(A, left) | <- none\nS2: -> back(A, left) | <- none").unwrap();
    match Evaluator::default().evaluate(defs) {
        Err(EvaluationError::SwitchToAlreadyConnected(name, state)) => {
            assert_eq!(name, "A");
            assert_eq!(state, SwitchState::Left);
        }
        _ => panic!("expected the branch to be claimed once"),
    }

    // a link may not reuse a claimed branch
    let defs =
        parser("S1: -> back(A, left) | <- none\nswitch(A, left) -> switch(B, right)").unwrap();
    assert!(matches!(
        Evaluator::default().evaluate(defs),
        Err(EvaluationError::SwitchToAlreadyConnected(_, SwitchState::Left))
    ));
}

#[test]
fn evaluator_rejects_unfinished_switches() {
    // a switch whose pole was never bound is rejected at finalization
    let defs = parser("S1: -> back(N, left) | <- none").unwrap();
    assert!(matches!(
        Evaluator::default().evaluate(defs),
        Err(EvaluationError::InvalidGraph)
    ));

    // a switch with a pole but no bound branch is rejected too
    let defs = parser("S1: -> switch(A) | <- none").unwrap();
    assert!(matches!(
        Evaluator::default().evaluate(defs),
        Err(EvaluationError::InvalidGraph)
    ));
}

#[test]
fn evaluator_builds_graph() {
    let defs = parser("S1: -> direct(S2) | <- none\nS2: -> none | <- direct(S1)").unwrap();
    let track = Evaluator::default().evaluate(defs).unwrap();
    let s1 = track.section_id(&String::from("S1")).unwrap();
    let s2 = track.section_id(&String::from("S2")).unwrap();
    assert_eq!(s1.as_usize(), 1);
    assert_eq!(s2.as_usize(), 2);
    let transitions = track.transitions(s1, Direction::Forward).unwrap();
    assert_eq!(transitions.len(), 1);
    assert_eq!(transitions[0].destination().as_usize(), 2);
}
