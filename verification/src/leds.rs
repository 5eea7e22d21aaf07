//! The LED ring: standalone patterns, the gene that makes the ring render a
//! pattern as written, and the decisions of the LED service.
//!
//! A pattern is a phenotype installed as the gene and expressed. The renderer
//! blends the two strands of a gene: `sat` and `chaser` are saturating sums,
//! the hue drift is `(2 + (14 - min(a + b, 14))) % 14` of the two strands'
//! `hue_ratedir`, and `nonlin` takes the first strand's `chaser` as one of its
//! terms. [`as_gene`] splits a pattern into two strands that blend back to it.
use vstd::prelude::*;

verus! {

/// One strand of a gene: the parameters of the ring renderer.
///
/// `cd_*` drive the brightness cycle (period is 0..=6, larger is slower),
/// `sat` is saturation, `hue_base`/`hue_bound` bound the colour range and must
/// satisfy bound >= base, `hue_ratedir` sets hue drift speed and direction,
/// `chaser` sets the rotating offset around the ring, and `nonlin` shapes the
/// brightness curve.
#[derive(Clone, Copy, Debug, PartialEq, Eq, Structural)]
pub struct Haploid {
    pub cd_period: u8,
    pub cd_rate: u8,
    pub cd_dir: u8,
    pub sat: u8,
    pub hue_ratedir: u8,
    pub hue_base: u8,
    pub hue_bound: u8,
    pub chaser: u8,
    pub nonlin: u8,
}

/// A gene: two strands.
#[derive(Clone, Copy, Debug, PartialEq, Eq, Structural)]
pub struct Diploid {
    pub first: Haploid,
    pub second: Haploid,
}

/// The number of standalone patterns; selection `1..=PATTERN_COUNT` picks one.
pub const PATTERN_COUNT: usize = 5;

/// The standalone patterns, by index.
pub open spec fn spec_pattern(index: int) -> Option<Haploid> {
    if index == 0 {
        // A slow full-spectrum drift: calm, uses the whole ring evenly.
        Some(
            Haploid {
                cd_period: 5,
                cd_rate: 24,
                cd_dir: 1,
                sat: 255,
                hue_ratedir: 36,
                hue_base: 0,
                hue_bound: 255,
                chaser: 24,
                nonlin: 96,
            },
        )
    } else if index == 1 {
        // A single bright point chasing quickly around the ring.
        Some(
            Haploid {
                cd_period: 1,
                cd_rate: 200,
                cd_dir: 1,
                sat: 255,
                hue_ratedir: 8,
                hue_base: 150,
                hue_bound: 170,
                chaser: 220,
                nonlin: 220,
            },
        )
    } else if index == 2 {
        // Slow symmetric breathing in a narrow cyan band.
        Some(
            Haploid {
                cd_period: 6,
                cd_rate: 12,
                cd_dir: 0,
                sat: 220,
                hue_ratedir: 0,
                hue_base: 120,
                hue_bound: 135,
                chaser: 0,
                nonlin: 64,
            },
        )
    } else if index == 3 {
        // Warm amber ember, low saturation drift, barely moving.
        Some(
            Haploid {
                cd_period: 4,
                cd_rate: 40,
                cd_dir: 0,
                sat: 180,
                hue_ratedir: 4,
                hue_base: 10,
                hue_bound: 40,
                chaser: 8,
                nonlin: 160,
            },
        )
    } else if index == 4 {
        // Fast, high-contrast, full-spectrum: deliberately loud.
        Some(
            Haploid {
                cd_period: 0,
                cd_rate: 255,
                cd_dir: 1,
                sat: 255,
                hue_ratedir: 255,
                hue_base: 0,
                hue_bound: 255,
                chaser: 255,
                nonlin: 255,
            },
        )
    } else {
        None
    }
}

/// The pattern at `index` (zero-based), if there is one.
pub fn pattern(index: usize) -> (p: Option<Haploid>)
    ensures
        p == spec_pattern(index as int),
{
    match index {
        0 => Some(
            Haploid {
                cd_period: 5,
                cd_rate: 24,
                cd_dir: 1,
                sat: 255,
                hue_ratedir: 36,
                hue_base: 0,
                hue_bound: 255,
                chaser: 24,
                nonlin: 96,
            },
        ),
        1 => Some(
            Haploid {
                cd_period: 1,
                cd_rate: 200,
                cd_dir: 1,
                sat: 255,
                hue_ratedir: 8,
                hue_base: 150,
                hue_bound: 170,
                chaser: 220,
                nonlin: 220,
            },
        ),
        2 => Some(
            Haploid {
                cd_period: 6,
                cd_rate: 12,
                cd_dir: 0,
                sat: 220,
                hue_ratedir: 0,
                hue_base: 120,
                hue_bound: 135,
                chaser: 0,
                nonlin: 64,
            },
        ),
        3 => Some(
            Haploid {
                cd_period: 4,
                cd_rate: 40,
                cd_dir: 0,
                sat: 180,
                hue_ratedir: 4,
                hue_base: 10,
                hue_bound: 40,
                chaser: 8,
                nonlin: 160,
            },
        ),
        4 => Some(
            Haploid {
                cd_period: 0,
                cd_rate: 255,
                cd_dir: 1,
                sat: 255,
                hue_ratedir: 255,
                hue_base: 0,
                hue_bound: 255,
                chaser: 255,
                nonlin: 255,
            },
        ),
        _ => None,
    }
}

/// The names of the patterns, by index.
pub open spec fn spec_pattern_name(index: int) -> Option<Seq<char>> {
    if index == 0 {
        Some("rainbow"@)
    } else if index == 1 {
        Some("chase"@)
    } else if index == 2 {
        Some("breathe"@)
    } else if index == 3 {
        Some("ember"@)
    } else if index == 4 {
        Some("riot"@)
    } else {
        None
    }
}

/// The name of the pattern at `index` (zero-based), if there is one.
pub fn pattern_name(index: usize) -> (name: Option<&'static str>)
    ensures
        match name {
            Some(n) => spec_pattern_name(index as int) == Some(n@),
            None => spec_pattern_name(index as int) is None,
        },
{
    match index {
        0 => Some("rainbow"),
        1 => Some("chase"),
        2 => Some("breathe"),
        3 => Some("ember"),
        4 => Some("riot"),
        _ => None,
    }
}

/// Every pattern keeps its brightness period in `0..=6` and its hue range
/// ordered (`hue_bound >= hue_base`), and there are exactly `PATTERN_COUNT`.
pub proof fn patterns_are_well_formed(index: int)
    ensures
        spec_pattern(index) is Some <==> 0 <= index < PATTERN_COUNT,
        spec_pattern(index) matches Some(p) ==> p.cd_period <= 6 && p.hue_base <= p.hue_bound,
{
}

/// The sum that the hue-drift rule needs from the two strands to yield `want`.
pub open spec fn hue_sum_for(want: u8) -> u8 {
    if want >= 2 {
        (16 - want) as u8
    } else {
        (16 - (want + 14)) as u8
    }
}

/// The gene whose expression is the pattern `p`.
pub open spec fn spec_as_gene(p: Haploid) -> Diploid {
    let half = p.sat / 2;
    let want = p.hue_ratedir % 14;
    let sum = hue_sum_for(want);
    Diploid {
        first: Haploid {
            cd_period: p.cd_period,
            cd_rate: p.cd_rate,
            cd_dir: p.cd_dir,
            sat: half,
            hue_ratedir: if sum <= 14 {
                sum
            } else {
                14
            },
            hue_base: p.hue_base,
            hue_bound: p.hue_bound,
            chaser: p.chaser,
            nonlin: 0,
        },
        second: Haploid {
            cd_period: p.cd_period,
            cd_rate: p.cd_rate,
            cd_dir: 0,
            sat: (p.sat - half) as u8,
            hue_ratedir: 0,
            hue_base: p.hue_base,
            hue_bound: p.hue_bound,
            chaser: 0,
            nonlin: if p.nonlin >= p.chaser {
                (p.nonlin - p.chaser) as u8
            } else {
                0
            },
        },
    }
}

/// Builds a gene whose expression comes out as `p`.
///
/// Expressing `Diploid([p, p])` does not give `p`: the saturating sums pin
/// `sat` and `chaser` to 255 and the hue rule collapses most inputs to one
/// value. Each field is inverted here so the pattern that was written is the
/// pattern that renders.
pub fn as_gene(p: Haploid) -> (g: Diploid)
    ensures
        g == spec_as_gene(p),
        g.first.sat + g.second.sat == p.sat,
        g.first.chaser + g.second.chaser == p.chaser,
        hue_drift_rule(g.first.hue_ratedir + g.second.hue_ratedir) == p.hue_ratedir % 14,
        p.chaser <= p.nonlin ==> g.first.chaser + g.second.nonlin == p.nonlin,
        g.first.cd_dir + g.second.cd_dir == p.cd_dir,
        g.first.cd_period == p.cd_period && g.second.cd_period == p.cd_period,
        g.first.cd_rate == p.cd_rate && g.second.cd_rate == p.cd_rate,
        g.first.hue_base == p.hue_base && g.second.hue_base == p.hue_base,
        g.first.hue_bound == p.hue_bound && g.second.hue_bound == p.hue_bound,
{
    let half: u8 = p.sat / 2;
    let want: u8 = p.hue_ratedir % 14;
    let sum: u8 = if want >= 2 {
        16 - want
    } else {
        16 - (want + 14)
    };
    let first = Haploid {
        cd_period: p.cd_period,
        cd_rate: p.cd_rate,
        cd_dir: p.cd_dir,
        sat: half,
        hue_ratedir: if sum <= 14 {
            sum
        } else {
            14
        },
        hue_base: p.hue_base,
        hue_bound: p.hue_bound,
        chaser: p.chaser,
        // the renderer reads `chaser` from the first strand for `nonlin`, so this
        // strand's chaser is what lands there; the second strand carries the rest
        nonlin: 0,
    };
    let second = Haploid {
        cd_period: p.cd_period,
        cd_rate: p.cd_rate,
        cd_dir: 0,
        sat: p.sat - half,
        hue_ratedir: 0,
        hue_base: p.hue_base,
        hue_bound: p.hue_bound,
        chaser: 0,
        nonlin: if p.nonlin >= p.chaser {
            p.nonlin - p.chaser
        } else {
            0
        },
    };
    Diploid { first, second }
}

/// The renderer's hue-drift rule applied to the sum of the strands' `hue_ratedir`.
pub open spec fn hue_drift_rule(sum: int) -> int {
    (2 + (14 - if sum < 14 {
        sum
    } else {
        14
    })) % 14
}

/// The strands of `as_gene(p)` add back up to `p`: the saturations and the
/// chasers sum to the pattern's without saturating, the hue-drift rule yields
/// the pattern's drift (which the renderer takes modulo 14), the first
/// strand's chaser plus the second strand's `nonlin` is the pattern's `nonlin`
/// (whenever `nonlin >= chaser`), and both strands keep the pattern's
/// brightness cycle period, rate and hue range.
pub proof fn as_gene_strands_sum_to_pattern(p: Haploid)
    ensures
        ({
            let g = spec_as_gene(p);
            &&& g.first.sat + g.second.sat == p.sat
            &&& g.first.chaser + g.second.chaser == p.chaser
            &&& hue_drift_rule(g.first.hue_ratedir + g.second.hue_ratedir) == p.hue_ratedir % 14
            &&& p.chaser <= p.nonlin ==> g.first.chaser + g.second.nonlin == p.nonlin
            &&& g.first.cd_dir + g.second.cd_dir == p.cd_dir
            &&& g.first.cd_period == p.cd_period && g.second.cd_period == p.cd_period
            &&& g.first.cd_rate == p.cd_rate && g.second.cd_rate == p.cd_rate
            &&& g.first.hue_base == p.hue_base && g.second.hue_base == p.hue_base
            &&& g.first.hue_bound == p.hue_bound && g.second.hue_bound == p.hue_bound
        }),
{
}

// ---------------------------------------------------------------------------
// The LED service
// ---------------------------------------------------------------------------
/// The four arguments of a scalar message.
#[derive(Clone, Copy, Debug, PartialEq, Eq, Structural)]
pub struct ScalarArgs {
    pub arg1: usize,
    pub arg2: usize,
    pub arg3: usize,
    pub arg4: usize,
}

/// The body of a message that reaches the LED service.
#[derive(Clone, Copy, Debug, PartialEq, Eq, Structural)]
pub enum MessageBody {
    MutableBorrow,
    Borrow,
    Move,
    Scalar(ScalarArgs),
    BlockingScalar(ScalarArgs),
}

/// The arguments of any scalar message, blocking or not.
pub open spec fn spec_any_scalar(body: MessageBody) -> Option<ScalarArgs> {
    match body {
        MessageBody::Scalar(a) => Some(a),
        MessageBody::BlockingScalar(a) => Some(a),
        _ => None,
    }
}

/// The arguments of a blocking scalar message only.
pub open spec fn spec_blocking_scalar(body: MessageBody) -> Option<ScalarArgs> {
    match body {
        MessageBody::BlockingScalar(a) => Some(a),
        _ => None,
    }
}

/// Whether the message lends or moves memory.
pub open spec fn spec_is_memory(body: MessageBody) -> bool {
    body is MutableBorrow || body is Borrow || body is Move
}

/// The operations of the LED service.
#[derive(Clone, Copy, Debug, PartialEq, Eq, Structural)]
pub enum LedOp {
    Autogamy,
    SetTestRate,
    Syngamy,
    Force,
    GeneTest,
    SetGene,
    JackEyes,
    SetPattern,
    Pause,
    Invalid,
}

/// Four scalar arguments, each cut to 32 bits, as a serialized strand travels.
#[derive(Clone, Copy, Debug, PartialEq, Eq, Structural)]
pub struct StrandWords {
    pub w0: u32,
    pub w1: u32,
    pub w2: u32,
    pub w3: u32,
}

/// What selecting a pattern does to the ring.
#[derive(Clone, Copy, Debug, PartialEq, Eq, Structural)]
pub struct PatternOutcome {
    /// `Some(gene)`: install `gene` (which may be no gene at all) before
    /// expressing; `None`: leave the installed gene as it is.
    pub install: Option<Option<Diploid>>,
    /// Whether the gene is expressed on the ring.
    pub express: bool,
    /// 1: gene expression restored with a gene; 2: restored with none;
    /// 3: a pattern is showing; 4: the selection was out of range.
    pub status: u8,
}

/// The work the LED service hands to the ring after deciding on a message.
#[derive(Clone, Copy, Debug, PartialEq, Eq, Structural)]
pub enum LedAction {
    /// Nothing to do: the message was not of the kind the operation reads.
    Nothing,
    /// Self-fertilise the gene, then express it.
    AutogamyThenExpress,
    /// Deserialize `sperm`; if that works, take an egg by meiosis, mutate it at
    /// `rate_param`, install the gene (egg, sperm) and express it.
    Breed { sperm: StrandWords, rate_param: u8 },
    /// Deserialize `phenotype`; if that works, force it onto the engine.
    Force { phenotype: StrandWords },
    /// Install the gene of the badge type numbered `badge_type` (both
    /// strands the same) and express it.
    GeneTest { badge_type: u8 },
    /// Receive a gene from the lent memory, install it and express it.
    ReceiveGene,
    /// Turn the eyes effect on or off.
    JackEyes { on: bool },
    /// Apply a pattern selection.
    Pattern { selection: usize, outcome: PatternOutcome },
    /// Pause or resume rendering.
    Pause { paused: bool },
    /// Report an operation the service does not know.
    ReportInvalid,
}

/// The decisions' state: the mutation rate and the badge's own gene, put
/// aside while a standalone pattern is showing. `saved_gene` is `None` when
/// nothing is put aside, and `Some(gene)` when `gene` is, which is itself
/// `None` if no gene was installed when the first pattern was selected.
pub struct LedManager {
    pub rate_param: u8,
    pub saved_gene: Option<Option<Diploid>>,
}

/// Selecting `sel` when `saved` is put aside and `current` is installed:
/// what is put aside afterwards, and what happens to the ring.
pub open spec fn spec_select_pattern(
    saved: Option<Option<Diploid>>,
    current: Option<Diploid>,
    sel: usize,
) -> (Option<Option<Diploid>>, PatternOutcome) {
    if sel == 0 {
        let after = match saved {
            Some(g) => g,
            None => current,
        };
        (
            None,
            PatternOutcome {
                install: saved,
                express: true,
                status: if after is Some {
                    1
                } else {
                    2
                },
            },
        )
    } else if sel - 1 < PATTERN_COUNT {
        (
            if saved is None {
                Some(current)
            } else {
                saved
            },
            PatternOutcome {
                install: Some(Some(spec_as_gene(spec_pattern(sel - 1).unwrap()))),
                express: true,
                status: 3,
            },
        )
    } else {
        (saved, PatternOutcome { install: None, express: false, status: 4 })
    }
}

/// The four arguments cut to 32 bits.
pub open spec fn spec_strand_words(a: ScalarArgs) -> StrandWords {
    StrandWords {
        w0: a.arg1 as u32,
        w1: a.arg2 as u32,
        w2: a.arg3 as u32,
        w3: a.arg4 as u32,
    }
}

/// The largest rate parameter, 255, as the argument is read.
pub open spec fn spec_rate_param(arg: usize) -> u8 {
    if arg < 255 {
        arg as u8
    } else {
        255
    }
}

/// What the LED service decides on a message, from its state `(rate_param,
/// saved)` and the gene `current` now installed: the next state and the work.
pub open spec fn spec_led_step(
    rate_param: u8,
    saved: Option<Option<Diploid>>,
    op: LedOp,
    body: MessageBody,
    current: Option<Diploid>,
) -> (u8, Option<Option<Diploid>>, LedAction) {
    match op {
        LedOp::Autogamy => (rate_param, saved, LedAction::AutogamyThenExpress),
        LedOp::SetTestRate => match spec_blocking_scalar(body) {
            Some(a) => (spec_rate_param(a.arg1), saved, LedAction::Nothing),
            None => (rate_param, saved, LedAction::Nothing),
        },
        LedOp::Syngamy => match spec_blocking_scalar(body) {
            Some(a) => (
                rate_param,
                saved,
                LedAction::Breed { sperm: spec_strand_words(a), rate_param },
            ),
            None => (rate_param, saved, LedAction::Nothing),
        },
        LedOp::Force => match spec_blocking_scalar(body) {
            Some(a) => (rate_param, saved, LedAction::Force { phenotype: spec_strand_words(a) }),
            None => (rate_param, saved, LedAction::Nothing),
        },
        LedOp::GeneTest => match spec_blocking_scalar(body) {
            Some(a) => (rate_param, saved, LedAction::GeneTest { badge_type: a.arg1 as u8 }),
            None => (rate_param, saved, LedAction::Nothing),
        },
        LedOp::SetGene => if spec_is_memory(body) {
            (rate_param, saved, LedAction::ReceiveGene)
        } else {
            (rate_param, saved, LedAction::Nothing)
        },
        LedOp::JackEyes => match spec_any_scalar(body) {
            Some(a) => (rate_param, saved, LedAction::JackEyes { on: a.arg1 != 0 }),
            None => (rate_param, saved, LedAction::Nothing),
        },
        LedOp::SetPattern => match spec_any_scalar(body) {
            Some(a) => {
                let (next_saved, outcome) = spec_select_pattern(saved, current, a.arg1);
                (rate_param, next_saved, LedAction::Pattern { selection: a.arg1, outcome })
            },
            None => (rate_param, saved, LedAction::Nothing),
        },
        LedOp::Pause => match spec_blocking_scalar(body) {
            Some(a) => (rate_param, saved, LedAction::Pause { paused: a.arg1 != 0 }),
            None => (rate_param, saved, LedAction::Nothing),
        },
        LedOp::Invalid => (rate_param, saved, LedAction::ReportInvalid),
    }
}

/// The argument cut to 32 bits.
fn word(x: usize) -> (w: u32)
    ensures
        w == x as u32,
{
    x as u32
}

/// The argument cut to 8 bits.
fn byte(x: usize) -> (b: u8)
    ensures
        b == x as u8,
{
    x as u8
}

impl LedManager {
    /// The service's state at start: mutation rate parameter 1, nothing put aside.
    pub fn new() -> (m: Self)
        ensures
            m.rate_param == 1,
            m.saved_gene is None,
    {
        LedManager { rate_param: 1, saved_gene: None }
    }

    /// The mutation rate parameter set by `SetTestRate`: the first argument,
    /// at most 255.
    pub fn rate_from_arg(arg: usize) -> (r: u8)
        ensures
            r == spec_rate_param(arg),
    {
        if arg < 255 {
            byte(arg)
        } else {
            255
        }
    }

    /// Applies pattern selection `sel` with `current` installed. Selection 0
    /// puts back exactly the gene that was put aside, if anything was (no gene,
    /// if none was installed), and expresses it;
    /// selection `1..=PATTERN_COUNT` puts aside the current gene (unless one is
    /// already put aside) and installs that pattern as the gene; any other
    /// selection is ignored.
    pub fn select_pattern(&mut self, sel: usize, current: Option<Diploid>) -> (o: PatternOutcome)
        ensures
            (final(self).saved_gene, o) == spec_select_pattern(old(self).saved_gene, current, sel),
            final(self).rate_param == old(self).rate_param,
    {
        if sel == 0 {
            let saved = self.saved_gene;
            self.saved_gene = None;
            let after_some = match saved {
                Some(g) => g.is_some(),
                None => current.is_some(),
            };
            PatternOutcome {
                install: saved,
                express: true,
                status: if after_some {
                    1
                } else {
                    2
                },
            }
        } else if let Some(p) = pattern(sel - 1) {
            if self.saved_gene.is_none() {
                self.saved_gene = Some(current);
            }
            PatternOutcome { install: Some(Some(as_gene(p))), express: true, status: 3 }
        } else {
            PatternOutcome { install: None, express: false, status: 4 }
        }
    }

    /// Decides what a message of operation `op` with body `body` does, with
    /// `current` the gene now installed.
    pub fn handle(&mut self, op: LedOp, body: MessageBody, current: Option<Diploid>) -> (a:
        LedAction)
        ensures
            (final(self).rate_param, final(self).saved_gene, a) == spec_led_step(
                old(self).rate_param,
                old(self).saved_gene,
                op,
                body,
                current,
            ),
    {
        let blocking: Option<ScalarArgs> = match body {
            MessageBody::BlockingScalar(a) => Some(a),
            _ => None,
        };
        let any_scalar: Option<ScalarArgs> = match body {
            MessageBody::Scalar(a) => Some(a),
            MessageBody::BlockingScalar(a) => Some(a),
            _ => None,
        };
        match op {
            LedOp::Autogamy => LedAction::AutogamyThenExpress,
            LedOp::SetTestRate => {
                if let Some(a) = blocking {
                    self.rate_param = Self::rate_from_arg(a.arg1);
                }
                LedAction::Nothing
            },
            LedOp::Syngamy => match blocking {
                Some(a) => LedAction::Breed {
                    sperm: StrandWords {
                        w0: word(a.arg1),
                        w1: word(a.arg2),
                        w2: word(a.arg3),
                        w3: word(a.arg4),
                    },
                    rate_param: self.rate_param,
                },
                None => LedAction::Nothing,
            },
            LedOp::Force => match blocking {
                Some(a) => LedAction::Force {
                    phenotype: StrandWords {
                        w0: word(a.arg1),
                        w1: word(a.arg2),
                        w2: word(a.arg3),
                        w3: word(a.arg4),
                    },
                },
                None => LedAction::Nothing,
            },
            LedOp::GeneTest => match blocking {
                Some(a) => LedAction::GeneTest { badge_type: byte(a.arg1) },
                None => LedAction::Nothing,
            },
            LedOp::SetGene => match body {
                MessageBody::MutableBorrow | MessageBody::Borrow | MessageBody::Move => {
                    LedAction::ReceiveGene
                },
                _ => LedAction::Nothing,
            },
            LedOp::JackEyes => match any_scalar {
                Some(a) => LedAction::JackEyes { on: a.arg1 != 0 },
                None => LedAction::Nothing,
            },
            LedOp::SetPattern => match any_scalar {
                Some(a) => {
                    let outcome = self.select_pattern(a.arg1, current);
                    LedAction::Pattern { selection: a.arg1, outcome }
                },
                None => LedAction::Nothing,
            },
            LedOp::Pause => match blocking {
                Some(a) => LedAction::Pause { paused: a.arg1 != 0 },
                None => LedAction::Nothing,
            },
            LedOp::Invalid => LedAction::ReportInvalid,
        }
    }
}

/// One message: the operation, its body, and the gene installed when it arrives.
pub type LedMessage = (LedOp, MessageBody, Option<Diploid>);

/// The state `(rate_param, saved)` after the messages `msgs`.
pub open spec fn led_run(rate_param: u8, saved: Option<Option<Diploid>>, msgs: Seq<LedMessage>) -> (
    u8,
    Option<Option<Diploid>>,
)
    decreases msgs.len(),
{
    if msgs.len() == 0 {
        (rate_param, saved)
    } else {
        let (r, s, _) = spec_led_step(rate_param, saved, msgs[0].0, msgs[0].1, msgs[0].2);
        led_run(r, s, msgs.drop_first())
    }
}

/// Whether a message selects "gene (default)": a `SetPattern`, blocking or
/// not, whose selection is 0.
pub open spec fn selects_default(m: LedMessage) -> bool {
    &&& m.0 == LedOp::SetPattern
    &&& spec_any_scalar(m.1) matches Some(a) && a.arg1 == 0
}

proof fn lemma_saved_kept(rate_param: u8, g: Option<Diploid>, msgs: Seq<LedMessage>)
    requires
        forall|i: int| 0 <= i < msgs.len() ==> !selects_default(#[trigger] msgs[i]),
    ensures
        led_run(rate_param, Some(g), msgs).1 == Some(g),
    decreases msgs.len(),
{
    if msgs.len() > 0 {
        assert(!selects_default(msgs[0]));
        let (r, s, _) = spec_led_step(rate_param, Some(g), msgs[0].0, msgs[0].1, msgs[0].2);
        assert(s == Some(g));
        lemma_saved_kept(r, g, msgs.drop_first());
    }
}

/// Selecting "gene (default)" puts back exactly what was there before the
/// first pattern was selected: starting with nothing put aside, a message
/// `first` selecting a pattern (`1..=PATTERN_COUNT`) while gene `g` is
/// installed (`None` when there was no gene), then any messages `msgs` none of
/// which selects 0 (more patterns, breeding, new genes, other operations),
/// then a message `last` selecting 0: that installs `g` again, expresses it,
/// reports status 1 (or 2 when `g` is no gene), and leaves nothing put aside.
pub proof fn default_selection_restores_gene(
    rate_param: u8,
    g: Option<Diploid>,
    first: LedMessage,
    msgs: Seq<LedMessage>,
    last: LedMessage,
)
    requires
        first.0 == LedOp::SetPattern,
        spec_any_scalar(first.1) matches Some(a) && 1 <= a.arg1 <= PATTERN_COUNT,
        first.2 == g,
        forall|i: int| 0 <= i < msgs.len() ==> !selects_default(#[trigger] msgs[i]),
        selects_default(last),
    ensures
        ({
            let (rate1, saved1, _) = spec_led_step(rate_param, None, first.0, first.1, first.2);
            let (rate2, saved2) = led_run(rate1, saved1, msgs);
            let (rate3, saved3, action) = spec_led_step(rate2, saved2, last.0, last.1, last.2);
            &&& saved2 == Some(g)
            &&& action == LedAction::Pattern {
                selection: 0,
                outcome: PatternOutcome {
                    install: Some(g),
                    express: true,
                    status: if g is Some {
                        1u8
                    } else {
                        2u8
                    },
                },
            }
            &&& saved3 is None
        }),
{
    let (rate1, saved1, _) = spec_led_step(rate_param, None, first.0, first.1, first.2);
    assert(saved1 == Some(g));
    lemma_saved_kept(rate1, g, msgs);
}

/// Whether a message sets the mutation rate: a blocking `SetTestRate`.
pub open spec fn sets_rate(m: LedMessage) -> bool {
    m.0 == LedOp::SetTestRate && m.1 is BlockingScalar
}

proof fn lemma_rate_kept(rate_param: u8, saved: Option<Option<Diploid>>, msgs: Seq<LedMessage>)
    requires
        forall|i: int| 0 <= i < msgs.len() ==> !sets_rate(#[trigger] msgs[i]),
    ensures
        led_run(rate_param, saved, msgs).0 == rate_param,
    decreases msgs.len(),
{
    if msgs.len() > 0 {
        assert(!sets_rate(msgs[0]));
        let (r, s, _) = spec_led_step(rate_param, saved, msgs[0].0, msgs[0].1, msgs[0].2);
        assert(r == rate_param);
        lemma_rate_kept(r, s, msgs.drop_first());
    }
}

/// Every breeding mutates at the rate that the last blocking `SetTestRate`
/// set, its argument capped at 255 (or at 1, the rate at start, when there was
/// none): after `first` (a blocking `SetTestRate` with arguments `r`, or
/// nothing) and any messages `msgs` none of which sets the rate, a blocking
/// `Syngamy` hands out its four arguments as the sperm and that rate.
pub proof fn breeding_uses_last_test_rate(
    saved: Option<Option<Diploid>>,
    first: Option<(ScalarArgs, Option<Diploid>)>,
    msgs: Seq<LedMessage>,
    sperm: ScalarArgs,
    current: Option<Diploid>,
)
    requires
        forall|i: int| 0 <= i < msgs.len() ==> !sets_rate(#[trigger] msgs[i]),
    ensures
        ({
            let (rate0, saved0) = match first {
                Some((r, c)) => {
                    let (a, b, _) = spec_led_step(
                        1,
                        saved,
                        LedOp::SetTestRate,
                        MessageBody::BlockingScalar(r),
                        c,
                    );
                    (a, b)
                },
                None => (1u8, saved),
            };
            let (rate1, saved1) = led_run(rate0, saved0, msgs);
            spec_led_step(rate1, saved1, LedOp::Syngamy, MessageBody::BlockingScalar(sperm), current).2
                == LedAction::Breed {
                sperm: spec_strand_words(sperm),
                rate_param: match first {
                    Some((r, _)) => spec_rate_param(r.arg1),
                    None => 1u8,
                },
            }
        }),
{
    let (rate0, saved0) = match first {
        Some((r, c)) => {
            let (a, b, _) = spec_led_step(1, saved, LedOp::SetTestRate, MessageBody::BlockingScalar(r), c);
            (a, b)
        },
        None => (1u8, saved),
    };
    lemma_rate_kept(rate0, saved0, msgs);
}

/// The pattern table: selection `k` (`1..=PATTERN_COUNT`) shows the pattern at
/// index `k - 1`, in this order and with these values: rainbow, chase,
/// breathe, ember and riot. There is no pattern at any other index.
pub proof fn pattern_table(index: int)
    ensures
        spec_pattern_name(0) == Some("rainbow"@),
        spec_pattern(0) == Some(Haploid { cd_period: 5, cd_rate: 24, cd_dir: 1, sat: 255, hue_ratedir: 36, hue_base: 0, hue_bound: 255, chaser: 24, nonlin: 96 }),
        spec_pattern_name(1) == Some("chase"@),
        spec_pattern(1) == Some(Haploid { cd_period: 1, cd_rate: 200, cd_dir: 1, sat: 255, hue_ratedir: 8, hue_base: 150, hue_bound: 170, chaser: 220, nonlin: 220 }),
        spec_pattern_name(2) == Some("breathe"@),
        spec_pattern(2) == Some(Haploid { cd_period: 6, cd_rate: 12, cd_dir: 0, sat: 220, hue_ratedir: 0, hue_base: 120, hue_bound: 135, chaser: 0, nonlin: 64 }),
        spec_pattern_name(3) == Some("ember"@),
        spec_pattern(3) == Some(Haploid { cd_period: 4, cd_rate: 40, cd_dir: 0, sat: 180, hue_ratedir: 4, hue_base: 10, hue_bound: 40, chaser: 8, nonlin: 160 }),
        spec_pattern_name(4) == Some("riot"@),
        spec_pattern(4) == Some(Haploid { cd_period: 0, cd_rate: 255, cd_dir: 1, sat: 255, hue_ratedir: 255, hue_base: 0, hue_bound: 255, chaser: 255, nonlin: 255 }),
        !(0 <= index < PATTERN_COUNT) ==> spec_pattern(index) is None && spec_pattern_name(
            index,
        ) is None,
{
}

/// Selecting pattern `k` (`1..=PATTERN_COUNT`), by a blocking or a plain
/// scalar message, installs a gene whose strands add up to the pattern at index
/// `k - 1` (the one [`pattern_table`] names) and expresses it with status 3;
/// the gene installed before is put aside unless one already is, and the
/// mutation rate is kept.
pub proof fn selecting_a_pattern_installs_it(
    rate_param: u8,
    saved: Option<Option<Diploid>>,
    a: ScalarArgs,
    blocking: bool,
    current: Option<Diploid>,
)
    requires
        1 <= a.arg1 <= PATTERN_COUNT,
    ensures
        ({
            let body = if blocking {
                MessageBody::BlockingScalar(a)
            } else {
                MessageBody::Scalar(a)
            };
            let (r, s, action) = spec_led_step(rate_param, saved, LedOp::SetPattern, body, current);
            let p = spec_pattern(a.arg1 - 1)->0;
            &&& spec_pattern(a.arg1 - 1) is Some
            &&& r == rate_param
            &&& s == if saved is None {
                Some(current)
            } else {
                saved
            }
            &&& action matches LedAction::Pattern { selection, outcome }
            &&& selection == a.arg1
            &&& outcome.express
            &&& outcome.status == 3
            &&& outcome.install matches Some(Some(g))
            &&& g == spec_as_gene(p)
            &&& g.first.sat + g.second.sat == p.sat
            &&& g.first.chaser + g.second.chaser == p.chaser
            &&& hue_drift_rule(g.first.hue_ratedir + g.second.hue_ratedir) == p.hue_ratedir % 14
            &&& p.chaser <= p.nonlin ==> g.first.chaser + g.second.nonlin == p.nonlin
            &&& g.first.cd_dir + g.second.cd_dir == p.cd_dir
            &&& g.first.cd_period == p.cd_period && g.second.cd_period == p.cd_period
            &&& g.first.cd_rate == p.cd_rate && g.second.cd_rate == p.cd_rate
            &&& g.first.hue_base == p.hue_base && g.second.hue_base == p.hue_base
            &&& g.first.hue_bound == p.hue_bound && g.second.hue_bound == p.hue_bound
        }),
{
    as_gene_strands_sum_to_pattern(spec_pattern(a.arg1 - 1)->0);
}

/// The requests other than pattern selection read their first argument (and
/// the next three for a strand), change neither the mutation rate nor what is
/// put aside, and hand out exactly this work:
/// - `JackEyes`, blocking or not: the eyes on exactly when `arg1 != 0`;
/// - blocking `Pause`: paused exactly when `arg1 != 0`;
/// - blocking `GeneTest`: the badge type numbered by the low byte of `arg1`;
/// - blocking `Force`: the four arguments, each cut to 32 bits, as the phenotype;
/// - `Autogamy` whatever the body, and `Invalid`, which is reported;
/// - `SetGene` with lent or moved memory: receive the gene from it.
/// A `SetGene` with a scalar, and a `JackEyes` or `SetPattern` with memory, do
/// nothing; the operations that read a blocking scalar do nothing on a plain
/// one.
pub proof fn other_requests_read_their_arguments(
    rate_param: u8,
    saved: Option<Option<Diploid>>,
    a: ScalarArgs,
    body: MessageBody,
    current: Option<Diploid>,
)
    ensures
        spec_led_step(rate_param, saved, LedOp::JackEyes, MessageBody::Scalar(a), current) == (
            rate_param,
            saved,
            LedAction::JackEyes { on: a.arg1 != 0 },
        ),
        spec_led_step(rate_param, saved, LedOp::JackEyes, MessageBody::BlockingScalar(a), current)
            == (rate_param, saved, LedAction::JackEyes { on: a.arg1 != 0 }),
        spec_led_step(rate_param, saved, LedOp::Pause, MessageBody::BlockingScalar(a), current) == (
            rate_param,
            saved,
            LedAction::Pause { paused: a.arg1 != 0 },
        ),
        spec_led_step(rate_param, saved, LedOp::GeneTest, MessageBody::BlockingScalar(a), current)
            == (rate_param, saved, LedAction::GeneTest { badge_type: a.arg1 as u8 }),
        spec_led_step(rate_param, saved, LedOp::Force, MessageBody::BlockingScalar(a), current) == (
            rate_param,
            saved,
            LedAction::Force {
                phenotype: StrandWords {
                    w0: a.arg1 as u32,
                    w1: a.arg2 as u32,
                    w2: a.arg3 as u32,
                    w3: a.arg4 as u32,
                },
            },
        ),
        spec_led_step(rate_param, saved, LedOp::Autogamy, body, current) == (
            rate_param,
            saved,
            LedAction::AutogamyThenExpress,
        ),
        spec_led_step(rate_param, saved, LedOp::Invalid, body, current) == (
            rate_param,
            saved,
            LedAction::ReportInvalid,
        ),
        (body is Borrow || body is MutableBorrow || body is Move) ==> spec_led_step(
            rate_param,
            saved,
            LedOp::SetGene,
            body,
            current,
        ) == (rate_param, saved, LedAction::ReceiveGene),
        (body is Scalar || body is BlockingScalar) ==> spec_led_step(
            rate_param,
            saved,
            LedOp::SetGene,
            body,
            current,
        ) == (rate_param, saved, LedAction::Nothing),
        (body is Borrow || body is MutableBorrow || body is Move) ==> {
            &&& spec_led_step(rate_param, saved, LedOp::JackEyes, body, current) == (
                rate_param,
                saved,
                LedAction::Nothing,
            )
            &&& spec_led_step(rate_param, saved, LedOp::SetPattern, body, current) == (
                rate_param,
                saved,
                LedAction::Nothing,
            )
        },
        body is Scalar ==> {
            &&& spec_led_step(rate_param, saved, LedOp::Pause, body, current) == (
                rate_param,
                saved,
                LedAction::Nothing,
            )
            &&& spec_led_step(rate_param, saved, LedOp::GeneTest, body, current) == (
                rate_param,
                saved,
                LedAction::Nothing,
            )
            &&& spec_led_step(rate_param, saved, LedOp::Force, body, current) == (
                rate_param,
                saved,
                LedAction::Nothing,
            )
            &&& spec_led_step(rate_param, saved, LedOp::Syngamy, body, current) == (
                rate_param,
                saved,
                LedAction::Nothing,
            )
            &&& spec_led_step(rate_param, saved, LedOp::SetTestRate, body, current) == (
                rate_param,
                saved,
                LedAction::Nothing,
            )
        },
{
}

/// Breeding with a blocking `Syngamy` hands out the four arguments, each cut
/// to 32 bits, as the sperm, and the current mutation rate; a blocking
/// `SetTestRate` sets the rate to its first argument, capped at 255, and hands
/// out nothing.
pub proof fn breeding_and_test_rate_read_their_arguments(
    rate_param: u8,
    saved: Option<Option<Diploid>>,
    a: ScalarArgs,
    current: Option<Diploid>,
)
    ensures
        spec_led_step(rate_param, saved, LedOp::Syngamy, MessageBody::BlockingScalar(a), current)
            == (
            rate_param,
            saved,
            LedAction::Breed {
                sperm: StrandWords {
                    w0: a.arg1 as u32,
                    w1: a.arg2 as u32,
                    w2: a.arg3 as u32,
                    w3: a.arg4 as u32,
                },
                rate_param,
            },
        ),
        ({
            let (r, s, action) = spec_led_step(
                rate_param,
                saved,
                LedOp::SetTestRate,
                MessageBody::BlockingScalar(a),
                current,
            );
            &&& r as int == if a.arg1 < 255 {
                a.arg1 as int
            } else {
                255
            }
            &&& s == saved
            &&& action == LedAction::Nothing
        }),
{
}

} // verus!
