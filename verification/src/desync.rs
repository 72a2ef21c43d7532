//! Noticing that two machines no longer play the same match.
//!
//! Both sides keep a weather byte and some checksums for every frame. Both dump
//! the state in the same order, so the checksums line up index for index.
use vstd::prelude::*;

verus! {

/// How many parts of the state are summed up: three for each player.
pub const REGION_COUNT: usize = 12;

/// The checksums of one frame.
pub type RegionHashes = [u32; REGION_COUNT];

/// The two sides disagree about a frame.
///
/// The checksums decide whenever both sides have them. The weather byte is
/// eight bits, so it agrees with a diverged peer far more often than not; it is
/// the fallback, for a 1v1 carries no checksums. A weather that was not kept
/// says nothing.
pub open spec fn disagree(
    ours: Option<RegionHashes>,
    theirs: Seq<u32>,
    weather_local: Option<u8>,
    weather_remote: u8,
) -> bool {
    if ours is Some && theirs.len() == REGION_COUNT {
        ours->0@ != theirs
    } else {
        weather_local is Some && weather_local->0 != weather_remote
    }
}

/// Compares the two sides.
pub fn states_differ(
    ours: &Option<RegionHashes>,
    theirs: &Vec<u32>,
    weather_local: Option<u8>,
    weather_remote: u8,
) -> (r: bool)
    ensures
        r == disagree(*ours, theirs@, weather_local, weather_remote),
{
    if let Some(hashes) = ours {
        if theirs.len() == REGION_COUNT {
            let mut i: usize = 0;
            while i < REGION_COUNT
                invariant
                    i <= REGION_COUNT,
                    *ours == Some(*hashes),
                    theirs@.len() == REGION_COUNT,
                    forall|j: int| 0 <= j < i ==> hashes@[j] == theirs@[j],
                decreases REGION_COUNT - i,
            {
                if hashes[i] != theirs[i] {
                    return true;
                }
                i += 1;
            }
            assert(hashes@ =~= theirs@);
            return false;
        }
    }
    match weather_local {
        Some(weather) => weather != weather_remote,
        None => false,
    }
}

/// How one part of the state differs.
#[derive(Clone, Copy, Debug, PartialEq, Eq, Structural)]
pub enum RegionDifference {
    /// A player's action and hit points.
    Vitals { region: usize, action: u32, hp: u32, their_action: u32, their_hp: u32 },
    /// A coordinate, as the bits of a 32-bit float.
    Coordinate { region: usize, bits: u32, their_bits: u32 },
}

/// What can be said about where two sides differ.
#[derive(Debug)]
pub enum RegionReport {
    /// We kept no checksums for the frame.
    NotKept,
    /// The peer had none yet. It sends none until it has retired a frame, and
    /// none at all in a 1v1.
    NotSent,
    /// The peer sent another number of them, so it runs another build.
    OtherBuild { sent: usize },
    /// Every part agrees, so only the weather byte differs.
    AllAgree,
    /// These parts differ, and these match. What matches is often the more
    /// useful half; if nothing does, the divergence is older than the frame.
    Differ { differing: Vec<RegionDifference>, matching: Vec<usize> },
}

/// How part `i` differs. Every third one packs an action and hit points.
pub open spec fn difference(ours: Seq<u32>, theirs: Seq<u32>, i: int) -> RegionDifference {
    if i % 3 == 2 {
        RegionDifference::Vitals {
            region: i as usize,
            action: ours[i] / 65536,
            hp: ours[i] % 65536,
            their_action: theirs[i] / 65536,
            their_hp: theirs[i] % 65536,
        }
    } else {
        RegionDifference::Coordinate {
            region: i as usize,
            bits: ours[i],
            their_bits: theirs[i],
        }
    }
}

/// How the first `n` parts differ, in order.
pub open spec fn differences(ours: Seq<u32>, theirs: Seq<u32>, n: int) -> Seq<RegionDifference>
    decreases n,
{
    if n <= 0 {
        seq![]
    } else if ours[n - 1] == theirs[n - 1] {
        differences(ours, theirs, n - 1)
    } else {
        differences(ours, theirs, n - 1).push(difference(ours, theirs, n - 1))
    }
}

/// Which of the first `n` parts match, in order.
pub open spec fn agreeing(ours: Seq<u32>, theirs: Seq<u32>, n: int) -> Seq<usize>
    decreases n,
{
    if n <= 0 {
        seq![]
    } else if ours[n - 1] == theirs[n - 1] {
        agreeing(ours, theirs, n - 1).push((n - 1) as usize)
    } else {
        agreeing(ours, theirs, n - 1)
    }
}

/// `report` is what can be said of our checksums and theirs.
pub open spec fn reports(report: RegionReport, ours: Option<RegionHashes>, theirs: Seq<u32>) -> bool {
    if ours is None {
        report is NotKept
    } else if theirs.len() == 0 {
        report is NotSent
    } else if theirs.len() != REGION_COUNT {
        report == RegionReport::OtherBuild { sent: theirs.len() as usize }
    } else if ours->0@ == theirs {
        report is AllAgree
    } else {
        &&& report is Differ
        &&& report->differing@ == differences(ours->0@, theirs, REGION_COUNT as int)
        &&& report->matching@ == agreeing(ours->0@, theirs, REGION_COUNT as int)
    }
}

/// Name the parts of the state that match.
pub fn matching_regions(ours: &RegionHashes, theirs: &Vec<u32>) -> (r: Vec<usize>)
    requires
        theirs@.len() == REGION_COUNT,
    ensures
        r@ == agreeing(ours@, theirs@, REGION_COUNT as int),
{
    let mut r: Vec<usize> = Vec::new();
    let mut i: usize = 0;
    while i < REGION_COUNT
        invariant
            i <= REGION_COUNT,
            theirs@.len() == REGION_COUNT,
            r@ == agreeing(ours@, theirs@, i as int),
        decreases REGION_COUNT - i,
    {
        if ours[i] == theirs[i] {
            r.push(i);
        }
        i += 1;
    }
    r
}

/// Name the parts of the state that disagree, on the frame they first did, and
/// those that match.
pub fn report_regions(ours: &Option<RegionHashes>, theirs: &Vec<u32>) -> (r: RegionReport)
    ensures
        reports(r, *ours, theirs@),
{
    let ours: &RegionHashes = match ours {
        Some(hashes) => hashes,
        None => return RegionReport::NotKept,
    };
    if theirs.len() == 0 {
        return RegionReport::NotSent;
    }
    if theirs.len() != REGION_COUNT {
        return RegionReport::OtherBuild { sent: theirs.len() };
    }
    let mut differing: Vec<RegionDifference> = Vec::new();
    let mut i: usize = 0;
    while i < REGION_COUNT
        invariant
            i <= REGION_COUNT,
            theirs@.len() == REGION_COUNT,
            differing@ == differences(ours@, theirs@, i as int),
            differing@.len() == 0 <==> forall|j: int| 0 <= j < i ==> ours@[j] == theirs@[j],
        decreases REGION_COUNT - i,
    {
        let mine: u32 = ours[i];
        let other: u32 = theirs[i];
        if mine != other {
            if i % 3 == 2 {
                differing.push(
                    RegionDifference::Vitals {
                        region: i,
                        action: mine / 65536,
                        hp: mine % 65536,
                        their_action: other / 65536,
                        their_hp: other % 65536,
                    },
                );
            } else {
                differing.push(
                    RegionDifference::Coordinate { region: i, bits: mine, their_bits: other },
                );
            }
        }
        i += 1;
    }
    if differing.len() == 0 {
        assert(ours@ =~= theirs@);
        return RegionReport::AllAgree;
    }
    RegionReport::Differ { differing, matching: matching_regions(ours, theirs) }
}

/// Where both sides have checksums the weather is of no account, and where we
/// kept neither checksums nor weather nothing is held against a peer.
pub proof fn checksums_decide(
    ours: Option<RegionHashes>,
    theirs: Seq<u32>,
    weather: Option<u8>,
    remote: u8,
    other_weather: Option<u8>,
    other_remote: u8,
)
    ensures
        ours is Some && theirs.len() == REGION_COUNT ==> disagree(ours, theirs, weather, remote)
            == disagree(ours, theirs, other_weather, other_remote),
        ours is None && weather is None ==> !disagree(ours, theirs, weather, remote),
{
}

/// A report names a part exactly when it differs.
pub proof fn reports_name_what_differs(ours: Seq<u32>, theirs: Seq<u32>, n: int, i: int)
    requires
        0 <= i < n,
    ensures
        ours[i] != theirs[i] <==> differences(ours, theirs, n).contains(
            difference(ours, theirs, i),
        ),
    decreases n,
{
    named_parts_differ(ours, theirs, n);
    let named = differences(ours, theirs, n);
    if ours[i] != theirs[i] {
        if i == n - 1 {
            assert(named.last() == difference(ours, theirs, i));
        } else {
            reports_name_what_differs(ours, theirs, n - 1, i);
            let before = differences(ours, theirs, n - 1);
            let k = choose|k: int|
                0 <= k < before.len() && before[k] == difference(ours, theirs, i);
            assert(named[k] == before[k]);
        }
    }
}

/// A report names a part as matching exactly when it does not differ.
pub proof fn reports_name_what_matches(ours: Seq<u32>, theirs: Seq<u32>, n: int, i: int)
    requires
        0 <= i < n <= usize::MAX,
    ensures
        ours[i] == theirs[i] <==> agreeing(ours, theirs, n).contains(i as usize),
    decreases n,
{
    named_parts_match(ours, theirs, n);
    let named = agreeing(ours, theirs, n);
    if ours[i] == theirs[i] {
        if i == n - 1 {
            assert(named.last() == i as usize);
        } else {
            reports_name_what_matches(ours, theirs, n - 1, i);
            let before = agreeing(ours, theirs, n - 1);
            let k = choose|k: int| 0 <= k < before.len() && before[k] == i as usize;
            assert(named[k] == before[k]);
        }
    }
}

proof fn named_parts_match(ours: Seq<u32>, theirs: Seq<u32>, n: int)
    requires
        n <= usize::MAX,
    ensures
        forall|k: int|
            0 <= k < agreeing(ours, theirs, n).len() ==> {
                let i = #[trigger] agreeing(ours, theirs, n)[k];
                i < n && ours[i as int] == theirs[i as int]
            },
    decreases n,
{
    if n > 0 {
        named_parts_match(ours, theirs, n - 1);
        let before = agreeing(ours, theirs, n - 1);
        let named = agreeing(ours, theirs, n);
        assert forall|k: int| 0 <= k < named.len() implies {
            let i = #[trigger] named[k];
            i < n && ours[i as int] == theirs[i as int]
        } by {
            if k < before.len() {
                assert(named[k] == before[k]);
            }
        }
    }
}

proof fn named_parts_differ(ours: Seq<u32>, theirs: Seq<u32>, n: int)
    ensures
        forall|k: int|
            0 <= k < differences(ours, theirs, n).len() ==> exists|i: int|
                0 <= i < n && ours[i] != theirs[i] && #[trigger] differences(ours, theirs, n)[k]
                    == #[trigger] difference(ours, theirs, i),
    decreases n,
{
    if n > 0 {
        named_parts_differ(ours, theirs, n - 1);
        let before = differences(ours, theirs, n - 1);
        let named = differences(ours, theirs, n);
        assert forall|k: int| 0 <= k < named.len() implies exists|i: int|
            0 <= i < n && ours[i] != theirs[i] && #[trigger] named[k] == #[trigger] difference(
                ours,
                theirs,
                i,
            ) by {
            if k < before.len() {
                assert(named[k] == before[k]);
                let i = choose|i: int|
                    0 <= i < n - 1 && ours[i] != theirs[i] && before[k] == #[trigger] difference(
                        ours,
                        theirs,
                        i,
                    );
                assert(named[k] == difference(ours, theirs, i));
            } else {
                assert(named[k] == difference(ours, theirs, n - 1));
            }
        }
    }
}

/// Two sides with checksums disagree exactly when some checksum differs. Where
/// one side has none, or another number of them, they disagree exactly when a
/// weather byte was kept and is not the peer's.
pub proof fn disagreement_is_difference(
    ours: Option<RegionHashes>,
    theirs: Seq<u32>,
    weather: Option<u8>,
    remote: u8,
)
    ensures
        ours is Some && theirs.len() == REGION_COUNT ==> (disagree(ours, theirs, weather, remote)
            <==> exists|i: int| 0 <= i < REGION_COUNT && ours->0[i] != #[trigger] theirs[i]),
        ours is None || theirs.len() != REGION_COUNT ==> (disagree(ours, theirs, weather, remote)
            <==> weather is Some && weather->0 != remote),
{
    if ours is Some && theirs.len() == REGION_COUNT {
        if forall|i: int| 0 <= i < REGION_COUNT ==> ours->0[i] == #[trigger] theirs[i] {
            assert(ours->0@ =~= theirs);
        }
    }
}

/// `part` says truly how part `i` differs: the action and the hit points are the
/// two halves of the word, and a coordinate is the word itself.
pub open spec fn tells(part: RegionDifference, i: int, ours: u32, theirs: u32) -> bool {
    match part {
        RegionDifference::Vitals { region, action, hp, their_action, their_hp } => {
            &&& region == i
            &&& i % 3 == 2
            &&& 65536 * action + hp == ours
            &&& hp < 65536
            &&& 65536 * their_action + their_hp == theirs
            &&& their_hp < 65536
        },
        RegionDifference::Coordinate { region, bits, their_bits } => {
            &&& region == i
            &&& i % 3 != 2
            &&& bits == ours
            &&& their_bits == theirs
        },
    }
}

/// A report says why nothing can be said, or else tells of every part whether it
/// differs, and how.
pub proof fn reports_are_complete(
    report: RegionReport,
    ours: Option<RegionHashes>,
    theirs: Seq<u32>,
    i: int,
)
    requires
        reports(report, ours, theirs),
        0 <= i < REGION_COUNT,
        theirs.len() <= usize::MAX,
    ensures
        report is NotKept <==> ours is None,
        report is NotSent <==> ours is Some && theirs.len() == 0,
        report is OtherBuild <==> ours is Some && theirs.len() != 0 && theirs.len() != REGION_COUNT,
        report is OtherBuild ==> report->sent == theirs.len(),
        report is AllAgree ==> ours->0[i] == theirs[i],
        report is Differ ==> {
            &&& ours is Some && theirs.len() == REGION_COUNT
            &&& ours->0[i] == theirs[i] <==> report->matching@.contains(i as usize)
            &&& ours->0[i] != theirs[i] ==> exists|k: int|
                0 <= k < report->differing@.len() && tells(
                    #[trigger] report->differing@[k],
                    i,
                    ours->0[i],
                    theirs[i],
                )
            &&& report->differing@.len() > 0
            &&& report->differing@.len() + report->matching@.len() == REGION_COUNT
        },
{
    if report is Differ {
        let mine = ours->0@;
        let n = REGION_COUNT as int;
        reports_name_what_matches(mine, theirs, n, i);
        reports_name_what_differs(mine, theirs, n, i);
        parts_are_counted_once(mine, theirs, n);
        if mine[i] != theirs[i] {
            let named = differences(mine, theirs, n);
            let k = choose|k: int| 0 <= k < named.len() && named[k] == difference(mine, theirs, i);
            assert(tells(named[k], i, mine[i], theirs[i]));
        }
        if differences(mine, theirs, n).len() == 0 {
            assert forall|j: int| 0 <= j < n implies mine[j] == theirs[j] by {
                reports_name_what_differs(mine, theirs, n, j);
            }
            assert(mine =~= theirs);
        }
    }
}

proof fn parts_are_counted_once(ours: Seq<u32>, theirs: Seq<u32>, n: int)
    requires
        0 <= n,
    ensures
        differences(ours, theirs, n).len() + agreeing(ours, theirs, n).len() == n,
    decreases n,
{
    if n > 0 {
        parts_are_counted_once(ours, theirs, n - 1);
    }
}

/// A report names the parts in order.
pub proof fn reports_are_in_order(ours: Seq<u32>, theirs: Seq<u32>, n: int, j: int, k: int)
    requires
        0 <= n <= usize::MAX,
    ensures
        0 <= k < agreeing(ours, theirs, n).len() ==> agreeing(ours, theirs, n)[k] < n,
        0 <= j < k < agreeing(ours, theirs, n).len() ==> agreeing(ours, theirs, n)[j] < agreeing(
            ours,
            theirs,
            n,
        )[k],
        0 <= k < differences(ours, theirs, n).len() ==> place_of(differences(ours, theirs, n)[k])
            < n,
        0 <= j < k < differences(ours, theirs, n).len() ==> place_of(
            differences(ours, theirs, n)[j],
        ) < place_of(differences(ours, theirs, n)[k]),
    decreases n,
{
    if n > 0 {
        reports_are_in_order(ours, theirs, n - 1, j, k);
        reports_are_in_order(ours, theirs, n - 1, j, j);
    }
}

/// The part that a difference is of.
pub open spec fn place_of(part: RegionDifference) -> int {
    match part {
        RegionDifference::Vitals { region, .. } => region as int,
        RegionDifference::Coordinate { region, .. } => region as int,
    }
}

} // verus!
