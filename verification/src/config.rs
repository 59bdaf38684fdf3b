//! What the daemon is started with: the target level, the tick cadence and
//! the name fragments of the additional devices to hold at that level.

use crate::level::{Level, FULL_SCALE_BITS};
use vstd::prelude::*;

verus! {

/// Bit pattern of the level that devices are held at: full scale. It is
/// fixed, and no setting changes it.
pub const TARGET_LEVEL_BITS: u32 = FULL_SCALE_BITS;

/// The tick cadence, in seconds, where none is asked for.
pub const DEFAULT_POLL_INTERVAL_SECONDS: u64 = 60;

/// The shortest tick cadence, in seconds.
pub const MINIMUM_POLL_INTERVAL_SECONDS: u64 = 1;

/// Why a configuration was turned down.
#[derive(Clone, Copy, Debug, PartialEq, Eq, Structural)]
pub enum ConfigError {
    /// The poll interval is shorter than the minimum.
    IntervalTooShort,
}

/// The texts in their order, each kept where it first occurs.
pub open spec fn without_repeats(texts: Seq<Seq<char>>) -> Seq<Seq<char>>
    decreases texts.len(),
{
    if texts.len() == 0 {
        Seq::empty()
    } else {
        let before = without_repeats(texts.drop_last());
        if before.contains(texts.last()) {
            before
        } else {
            before.push(texts.last())
        }
    }
}

/// `without_repeats` holds each text of its argument, holds nothing else,
/// and holds nothing twice.
pub proof fn lemma_without_repeats_is_a_set(texts: Seq<Seq<char>>)
    ensures
        without_repeats(texts).no_duplicates(),
        forall|text: Seq<char>| without_repeats(texts).contains(text) <==> texts.contains(text),
    decreases texts.len(),
{
    if texts.len() > 0 {
        let front = texts.drop_last();
        let before = without_repeats(front);
        lemma_without_repeats_is_a_set(front);
        assert forall|text: Seq<char>| without_repeats(texts).contains(text) <==> texts.contains(
            text,
        ) by {
            if texts.contains(text) {
                let at = choose|i: int| 0 <= i < texts.len() && texts[i] == text;
                if at < front.len() {
                    assert(front[at] == text);
                    assert(front.contains(text));
                    assert(before.contains(text));
                    let kept = choose|i: int| 0 <= i < before.len() && before[i] == text;
                    assert(without_repeats(texts)[kept] == text);
                } else if !before.contains(texts.last()) {
                    assert(without_repeats(texts)[before.len() as int] == text);
                }
            }
            if without_repeats(texts).contains(text) {
                let kept = choose|i: int|
                    0 <= i < without_repeats(texts).len() && without_repeats(texts)[i] == text;
                if kept < before.len() {
                    assert(before[kept] == text);
                    assert(front.contains(text));
                    let at = choose|i: int| 0 <= i < front.len() && front[i] == text;
                    assert(texts[at] == text);
                } else {
                    assert(texts[texts.len() - 1] == text);
                }
            }
        }
    }
}

/// The settings of one run.
#[derive(Debug)]
pub struct EnforcementConfig {
    target_level: Level,
    poll_interval_seconds: u64,
    alternate_name_fragments: Vec<String>,
}

impl EnforcementConfig {
    #[verifier::type_invariant]
    spec fn well_formed(self) -> bool {
        &&& self.poll_interval_seconds >= MINIMUM_POLL_INTERVAL_SECONDS
        &&& self.target_level@ == TARGET_LEVEL_BITS
    }

    /// The level that devices are held at.
    pub closed spec fn target(self) -> Level {
        self.target_level
    }

    /// The seconds from one tick to the next.
    pub closed spec fn interval(self) -> u64 {
        self.poll_interval_seconds
    }

    /// The name fragments of the additional devices, in their order.
    pub closed spec fn fragments(self) -> Seq<Seq<char>> {
        self.alternate_name_fragments.deep_view()
    }

    /// A configuration with the given cadence and name fragments. The
    /// target level is full scale. A fragment given more than once counts
    /// once, at its first place. An interval under the minimum is turned
    /// down.
    pub fn new(poll_interval_seconds: u64, alternate_name_fragments: Vec<String>) -> (made: Result<
        EnforcementConfig,
        ConfigError,
    >)
        ensures
            poll_interval_seconds < MINIMUM_POLL_INTERVAL_SECONDS ==> made == Err::<
                EnforcementConfig,
                ConfigError,
            >(ConfigError::IntervalTooShort),
            poll_interval_seconds >= MINIMUM_POLL_INTERVAL_SECONDS ==> (made matches Ok(config) && {
                &&& config.interval() == poll_interval_seconds
                &&& config.target()@ == TARGET_LEVEL_BITS
                &&& config.fragments() == without_repeats(alternate_name_fragments.deep_view())
            }),
    {
        if poll_interval_seconds < MINIMUM_POLL_INTERVAL_SECONDS {
            return Err(ConfigError::IntervalTooShort);
        }
        Ok(
            EnforcementConfig {
                target_level: Level::full_scale(),
                poll_interval_seconds,
                alternate_name_fragments: distinct(alternate_name_fragments),
            },
        )
    }

    /// The level that devices are held at: full scale.
    pub fn target_level(&self) -> (level: Level)
        ensures
            level == self.target(),
            level@ == TARGET_LEVEL_BITS,
    {
        proof {
            use_type_invariant(self);
        }
        self.target_level
    }

    /// The seconds from one tick to the next, at least the minimum.
    pub fn poll_interval_seconds(&self) -> (seconds: u64)
        ensures
            seconds == self.interval(),
            seconds >= MINIMUM_POLL_INTERVAL_SECONDS,
    {
        proof {
            use_type_invariant(self);
        }
        self.poll_interval_seconds
    }

    /// The name fragments of the additional devices, none of them twice.
    pub fn alternate_name_fragments(&self) -> (fragments: &Vec<String>)
        ensures
            fragments.deep_view() == self.fragments(),
    {
        &self.alternate_name_fragments
    }
}

impl Default for EnforcementConfig {
    /// The default cadence, and no additional devices.
    fn default() -> (config: EnforcementConfig)
        ensures
            config.interval() == DEFAULT_POLL_INTERVAL_SECONDS,
            config.target()@ == TARGET_LEVEL_BITS,
            config.fragments() == Seq::<Seq<char>>::empty(),
    {
        let fragments: Vec<String> = Vec::new();
        assert(fragments.deep_view() =~= Seq::<Seq<char>>::empty());
        EnforcementConfig {
            target_level: Level::full_scale(),
            poll_interval_seconds: DEFAULT_POLL_INTERVAL_SECONDS,
            alternate_name_fragments: fragments,
        }
    }
}

/// Whether one of the texts equals `text`.
fn holds_text(texts: &Vec<String>, text: &String) -> (held: bool)
    ensures
        held == texts.deep_view().contains(text@),
{
    let ghost views = texts.deep_view();
    let mut index: usize = 0;
    while index < texts.len()
        invariant
            index <= texts.len(),
            views == texts.deep_view(),
            forall|i: int| 0 <= i < index ==> views[i] != text@,
        decreases texts.len() - index,
    {
        if texts[index] == *text {
            assert(views[index as int] == text@);
            return true;
        }
        index = index + 1;
    }
    false
}

/// The texts in their order, each kept where it first occurs.
fn distinct(given: Vec<String>) -> (kept: Vec<String>)
    ensures
        kept.deep_view() == without_repeats(given.deep_view()),
{
    let ghost views = given.deep_view();
    let mut kept: Vec<String> = Vec::new();
    let mut index: usize = 0;
    assert(views.take(0) =~= Seq::<Seq<char>>::empty());
    assert(kept.deep_view() =~= Seq::<Seq<char>>::empty());
    while index < given.len()
        invariant
            index <= given.len(),
            views == given.deep_view(),
            kept.deep_view() == without_repeats(views.take(index as int)),
        decreases given.len() - index,
    {
        let ghost before = kept.deep_view();
        proof {
            let upto = views.take(index + 1);
            assert(upto.drop_last() =~= views.take(index as int));
            assert(upto.last() == given@[index as int]@);
        }
        if !holds_text(&kept, &given[index]) {
            kept.push(given[index].clone());
            assert(kept.deep_view() =~= before.push(given@[index as int]@));
        }
        index = index + 1;
    }
    assert(views.take(given.len() as int) =~= views);
    kept
}

} // verus!
