use dc34_console::leds::{
    as_gene, pattern, pattern_name, Diploid, Haploid, LedAction, LedManager, LedOp, MessageBody,
    ScalarArgs, StrandWords, PATTERN_COUNT,
};

fn args(a1: usize) -> ScalarArgs {
    ScalarArgs { arg1: a1, arg2: 2, arg3: 3, arg4: 4 }
}

fn hue_rule(sum: u32) -> u32 {
    (2 + (14 - sum.min(14))) % 14
}

fn own_gene() -> Diploid {
    let h = Haploid {
        cd_period: 3,
        cd_rate: 9,
        cd_dir: 1,
        sat: 100,
        hue_ratedir: 5,
        hue_base: 1,
        hue_bound: 2,
        chaser: 7,
        nonlin: 8,
    };
    Diploid { first: h, second: h }
}

#[test]
fn rainbow_gene_is_inverted_field_by_field() {
    let p = pattern(0).unwrap();
    let g = as_gene(p);
    assert_eq!(g.first.sat, 127);
    assert_eq!(g.second.sat, 128);
    // 36 % 14 = 8, so the first strand carries 16 - 8 = 8
    assert_eq!(g.first.hue_ratedir, 8);
    assert_eq!(g.second.hue_ratedir, 0);
    assert_eq!(g.first.chaser, 24);
    assert_eq!(g.second.chaser, 0);
    assert_eq!(g.first.nonlin, 0);
    assert_eq!(g.second.nonlin, 72);
    assert_eq!(g.first.cd_dir, 1);
    assert_eq!(g.second.cd_dir, 0);
}

#[test]
fn every_pattern_blends_back() {
    for i in 0..PATTERN_COUNT {
        let p = pattern(i).unwrap();
        let g = as_gene(p);
        assert_eq!(g.first.sat as u32 + g.second.sat as u32, p.sat as u32);
        assert_eq!(g.first.chaser as u32 + g.second.chaser as u32, p.chaser as u32);
        assert_eq!(
            hue_rule(g.first.hue_ratedir as u32 + g.second.hue_ratedir as u32),
            p.hue_ratedir as u32 % 14
        );
        assert_eq!(g.first.chaser as u32 + g.second.nonlin as u32, p.nonlin as u32);
        assert!(p.hue_base <= p.hue_bound && p.cd_period <= 6);
    }
    assert!(pattern(PATTERN_COUNT).is_none());
}

#[test]
fn hue_drift_of_one_and_zero() {
    let mut p = pattern(2).unwrap();
    p.hue_ratedir = 1;
    let g = as_gene(p);
    assert_eq!(g.first.hue_ratedir, 1);
    assert_eq!(hue_rule(1), 1);
    p.hue_ratedir = 14;
    assert_eq!(as_gene(p).first.hue_ratedir, 2);
    assert_eq!(hue_rule(2), 0);
}

#[test]
fn pattern_names() {
    assert_eq!(pattern_name(0), Some("rainbow"));
    assert_eq!(pattern_name(4), Some("riot"));
    assert_eq!(pattern_name(5), None);
}

#[test]
fn default_selection_restores_gene_scenario() {
    let mut m = LedManager::new();
    let g = own_gene();
    let o = m.select_pattern(2, Some(g));
    assert_eq!(o.status, 3);
    let shown = Some(as_gene(pattern(1).unwrap()));
    assert_eq!(o.install, Some(shown));
    let o = m.select_pattern(5, shown);
    assert_eq!(o.status, 3);
    let o = m.select_pattern(9, Some(as_gene(pattern(4).unwrap())));
    assert_eq!(o.status, 4);
    assert_eq!(o.install, None);
    assert!(!o.express);
    let o = m.select_pattern(0, Some(as_gene(pattern(4).unwrap())));
    assert_eq!(o.install, Some(Some(g)));
    assert_eq!(o.status, 1);
    assert!(o.express);
    assert_eq!(m.saved_gene, None);
}

#[test]
fn default_selection_without_gene() {
    let mut m = LedManager::new();
    // nothing put aside: the installed gene stays
    let o = m.select_pattern(0, None);
    assert_eq!(o.status, 2);
    assert_eq!(o.install, None);
    // no gene before the patterns: selection 0 removes the pattern again
    let o = m.select_pattern(1, None);
    assert_eq!(o.status, 3);
    let o = m.select_pattern(2, o.install.unwrap());
    assert_eq!(o.status, 3);
    assert_eq!(m.saved_gene, Some(None));
    let o = m.select_pattern(0, o.install.unwrap());
    assert_eq!(o.install, Some(None));
    assert_eq!(o.status, 2);
    assert!(o.express);
}

#[test]
fn breeding_uses_last_test_rate_scenario() {
    let mut m = LedManager::new();
    let breed = |m: &mut LedManager| m.handle(LedOp::Syngamy, MessageBody::BlockingScalar(args(1)), None);
    assert!(matches!(breed(&mut m), LedAction::Breed { rate_param: 1, .. }));
    m.handle(LedOp::SetTestRate, MessageBody::BlockingScalar(args(1000)), None);
    m.handle(LedOp::SetPattern, MessageBody::Scalar(args(3)), None);
    m.handle(LedOp::SetTestRate, MessageBody::Scalar(args(7)), None);
    assert!(matches!(breed(&mut m), LedAction::Breed { rate_param: 255, .. }));
}

#[test]
fn test_rate_is_capped() {
    let mut m = LedManager::new();
    assert_eq!(m.rate_param, 1);
    assert_eq!(m.handle(LedOp::SetTestRate, MessageBody::BlockingScalar(args(300)), None), LedAction::Nothing);
    assert_eq!(m.rate_param, 255);
    m.handle(LedOp::SetTestRate, MessageBody::BlockingScalar(args(17)), None);
    assert_eq!(m.rate_param, 17);
    // a plain scalar is not read by this operation
    m.handle(LedOp::SetTestRate, MessageBody::Scalar(args(3)), None);
    assert_eq!(m.rate_param, 17);
}

#[test]
fn set_pattern_reads_non_blocking_scalars() {
    let mut m = LedManager::new();
    let a = m.handle(LedOp::SetPattern, MessageBody::Scalar(args(3)), Some(own_gene()));
    match a {
        LedAction::Pattern { selection, outcome } => {
            assert_eq!(selection, 3);
            assert_eq!(outcome.status, 3);
        }
        _ => panic!("expected a pattern action"),
    }
    assert_eq!(m.saved_gene, Some(Some(own_gene())));
}

#[test]
fn operations_pick_their_message_kinds() {
    let mut m = LedManager::new();
    m.rate_param = 9;
    assert_eq!(
        m.handle(LedOp::Syngamy, MessageBody::BlockingScalar(ScalarArgs { arg1: 1, arg2: 2, arg3: 3, arg4: 4 }), None),
        LedAction::Breed { sperm: StrandWords { w0: 1, w1: 2, w2: 3, w3: 4 }, rate_param: 9 }
    );
    assert_eq!(m.handle(LedOp::Syngamy, MessageBody::Scalar(args(1)), None), LedAction::Nothing);
    assert_eq!(
        m.handle(LedOp::Force, MessageBody::BlockingScalar(ScalarArgs { arg1: 5, arg2: 6, arg3: 7, arg4: 8 }), None),
        LedAction::Force { phenotype: StrandWords { w0: 5, w1: 6, w2: 7, w3: 8 } }
    );
    assert_eq!(
        m.handle(LedOp::GeneTest, MessageBody::BlockingScalar(args(0x1_02)), None),
        LedAction::GeneTest { badge_type: 2 }
    );
    assert_eq!(m.handle(LedOp::SetGene, MessageBody::Borrow, None), LedAction::ReceiveGene);
    assert_eq!(m.handle(LedOp::SetGene, MessageBody::BlockingScalar(args(0)), None), LedAction::Nothing);
    assert_eq!(m.handle(LedOp::JackEyes, MessageBody::Scalar(args(1)), None), LedAction::JackEyes { on: true });
    assert_eq!(m.handle(LedOp::Pause, MessageBody::Scalar(args(1)), None), LedAction::Nothing);
    assert_eq!(m.handle(LedOp::Pause, MessageBody::BlockingScalar(args(0)), None), LedAction::Pause { paused: false });
    assert_eq!(m.handle(LedOp::Autogamy, MessageBody::Move, None), LedAction::AutogamyThenExpress);
    assert_eq!(m.handle(LedOp::Invalid, MessageBody::Move, None), LedAction::ReportInvalid);
}

#[test]
fn strand_words_are_cut_to_32_bits() {
    let mut m = LedManager::new();
    let big = (1usize << 32) as usize + 5;
    if usize::BITS == 64 {
        assert_eq!(
            m.handle(LedOp::Force, MessageBody::BlockingScalar(ScalarArgs { arg1: big, arg2: 0, arg3: 0, arg4: 0 }), None),
            LedAction::Force { phenotype: StrandWords { w0: 5, w1: 0, w2: 0, w3: 0 } }
        );
    }
}

#[test]
fn default_selection_restores_gene_across_other_messages() {
    let mut m = LedManager::new();
    let g = own_gene();
    let shown = Some(as_gene(pattern(2).unwrap()));
    m.handle(LedOp::SetPattern, MessageBody::BlockingScalar(args(3)), Some(g));
    // breeding, a new gene, an out-of-range selection and another pattern in between
    m.handle(LedOp::Syngamy, MessageBody::BlockingScalar(args(1)), shown);
    m.handle(LedOp::SetGene, MessageBody::Borrow, shown);
    m.handle(LedOp::SetPattern, MessageBody::Scalar(args(9)), None);
    m.handle(LedOp::SetPattern, MessageBody::Scalar(args(1)), None);
    match m.handle(LedOp::SetPattern, MessageBody::Scalar(args(0)), Some(as_gene(pattern(0).unwrap()))) {
        LedAction::Pattern { selection, outcome } => {
            assert_eq!(selection, 0);
            assert_eq!(outcome.install, Some(Some(g)));
            assert!(outcome.express);
            assert_eq!(outcome.status, 1);
        }
        other => panic!("unexpected {:?}", other),
    }
    assert_eq!(m.saved_gene, None);
}
