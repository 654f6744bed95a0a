//! Which driver a fit goes to: the stages named on the command line decide.

pub mod console;
pub mod motion;
pub mod report;
pub mod rows;
pub mod splits;
pub mod tables;
pub mod texture;

use crate::text::{joined, listed, quote, quoted, same, views};
use vstd::prelude::*;

verus! {

/// The stages that are fitted from the preset they are written into.
pub open spec fn motion_stages() -> Seq<Seq<char>> {
    seq![
        "false_beat"@,
        "strike_direction"@,
        "detune"@,
        "partial_gains"@,
        "texture"@,
    ]
}

/// The stages that are fitted from the preset they are written into.
pub fn motion_stage_names() -> (r: Vec<String>)
    ensures
        views(r@) == motion_stages(),
{
    let mut v: Vec<String> = Vec::new();
    v.push(String::from_str("false_beat"));
    v.push(String::from_str("strike_direction"));
    v.push(String::from_str("detune"));
    v.push(String::from_str("partial_gains"));
    v.push(String::from_str("texture"));
    proof {
        assert(views(v@) =~= motion_stages());
    }
    v
}

/// A command line with its `--stage` flags taken out.
pub ghost struct Split {
    pub stages: Seq<Seq<char>>,
    pub rest: Seq<Seq<char>>,
}

/// The stages named by `--stage`, in order, and every other argument, in
/// order; nothing where the last argument is a `--stage` without a name.
pub open spec fn split(args: Seq<Seq<char>>) -> Option<Split>
    decreases args.len(),
{
    if args.len() == 0 {
        Some(Split { stages: Seq::empty(), rest: Seq::empty() })
    } else if args[0] == "--stage"@ {
        if args.len() == 1 {
            None
        } else {
            match split(args.skip(2)) {
                None => None,
                Some(s) => Some(Split { stages: seq![args[1]] + s.stages, rest: s.rest }),
            }
        }
    } else {
        match split(args.skip(1)) {
            None => None,
            Some(s) => Some(Split { stages: s.stages, rest: seq![args[0]] + s.rest }),
        }
    }
}

/// A stage no driver owns.
pub open spec fn unknown(stage: Seq<char>) -> bool {
    stage != "partials"@ && !motion_stages().contains(stage)
}

/// `rest` with each of `stages` named again after it.
pub open spec fn forwarded(rest: Seq<Seq<char>>, stages: Seq<Seq<char>>) -> Seq<Seq<char>>
    decreases stages.len(),
{
    if stages.len() == 0 {
        rest
    } else {
        forwarded(rest, stages.drop_last()).push("--stage"@).push(stages.last())
    }
}

/// The driver that runs, and its command line.
pub enum Driver {
    Partials(Vec<String>),
    Motion(Vec<String>),
}

/// Why no driver runs.
pub enum FitError {
    MissingStageName,
    UnknownStage(String),
    PartialsNotAlone,
}

/// `stage` is the first of `stages` that no driver owns.
pub open spec fn first_unknown(stages: Seq<Seq<char>>, stage: Seq<char>) -> bool {
    exists|i: int|
        0 <= i < stages.len() && stages[i] == stage && unknown(stage) && forall|k: int|
            0 <= k < i ==> !unknown(#[trigger] stages[k])
}

/// Every stage is owned by a driver.
pub open spec fn all_known(stages: Seq<Seq<char>>) -> bool {
    forall|i: int| 0 <= i < stages.len() ==> !unknown(#[trigger] stages[i])
}

/// Hands the command line to the driver that owns its stages. A `--stage`
/// without a name is an error, then a stage that no driver owns, then
/// `partials` beside another stage. `partials` gets the other arguments alone;
/// the motion driver gets them with the stages named again after them.
pub fn run(args: Vec<String>) -> (r: Result<Driver, FitError>)
    ensures
        match r {
            Err(FitError::MissingStageName) => split(views(args@)) is None,
            Err(FitError::UnknownStage(name)) => split(views(args@)) matches Some(s)
                && first_unknown(s.stages, name@),
            Err(FitError::PartialsNotAlone) => split(views(args@)) matches Some(s) && all_known(
                s.stages,
            ) && s.stages.contains("partials"@) && exists|i: int|
                0 <= i < s.stages.len() && s.stages[i] != "partials"@,
            Ok(Driver::Partials(rest)) => split(views(args@)) matches Some(s) && s.stages.contains(
                "partials"@,
            ) && (forall|i: int| 0 <= i < s.stages.len() ==> s.stages[i] == "partials"@) && views(
                rest@,
            ) == s.rest,
            Ok(Driver::Motion(rest)) => split(views(args@)) matches Some(s) && all_known(s.stages)
                && !s.stages.contains("partials"@) && views(rest@) == forwarded(s.rest, s.stages),
        },
{
    let mut stages: Vec<String> = Vec::new();
    let mut rest: Vec<String> = Vec::new();
    let ghost all = views(args@);
    let mut i: usize = 0;
    proof {
        assert(all.skip(0) =~= all);
    }
    while i < args.len()
        invariant
            i <= args.len(),
            all == views(args@),
            split(all.skip(i as int)) is None ==> split(all) is None,
            split(all.skip(i as int)) matches Some(t) ==> split(all) == Some(
                Split { stages: views(stages@) + t.stages, rest: views(rest@) + t.rest },
            ),
        decreases args.len() - i,
    {
        let ghost here = all.skip(i as int);
        if same(args[i].as_str(), "--stage") {
            if i + 1 == args.len() {
                return Err(FitError::MissingStageName);
            }
            let ghost before = views(stages@);
            stages.push(args[i + 1].clone());
            proof {
                assert(views(stages@) =~= before.push(all[i + 1]));
                assert(here.skip(2) =~= all.skip(i + 2));
                if split(all.skip(i + 2)) is Some {
                    let t = split(all.skip(i + 2))->0;
                    assert(before + (seq![all[i + 1]] + t.stages) =~= views(stages@) + t.stages);
                }
            }
            i = i + 2;
        } else {
            let ghost before = views(rest@);
            rest.push(args[i].clone());
            proof {
                assert(views(rest@) =~= before.push(all[i as int]));
                assert(here.skip(1) =~= all.skip(i + 1));
                if split(all.skip(i + 1)) is Some {
                    let t = split(all.skip(i + 1))->0;
                    assert(before + (seq![all[i as int]] + t.rest) =~= views(rest@) + t.rest);
                }
            }
            i = i + 1;
        }
    }
    let ghost names = views(stages@);
    proof {
        assert(all.skip(i as int) =~= Seq::<Seq<char>>::empty());
        assert(names + Seq::<Seq<char>>::empty() =~= names);
        assert(views(rest@) + Seq::<Seq<char>>::empty() =~= views(rest@));
    }
    let known = motion_stage_names();
    let mut wants_partials = false;
    let mut wants_motion = false;
    let mut k: usize = 0;
    while k < stages.len()
        invariant
            k <= stages.len(),
            names == views(stages@),
            views(known@) == motion_stages(),
            split(all) == Some(Split { stages: names, rest: views(rest@) }),
            all == views(args@),
            forall|m: int| 0 <= m < k ==> !unknown(#[trigger] names[m]),
            wants_partials ==> exists|m: int| 0 <= m < k && names[m] == "partials"@,
            !wants_partials ==> forall|m: int| 0 <= m < k ==> names[m] != "partials"@,
            wants_motion ==> exists|m: int| 0 <= m < k && names[m] != "partials"@,
            !wants_motion ==> forall|m: int| 0 <= m < k ==> names[m] == "partials"@,
        decreases stages.len() - k,
    {
        if same(stages[k].as_str(), "partials") {
            wants_partials = true;
            proof {
                assert(names[k as int] == "partials"@);
            }
        } else {
            if !listed(&known, stages[k].as_str()) {
                proof {
                    assert(unknown(names[k as int]));
                }
                return Err(FitError::UnknownStage(stages[k].clone()));
            }
            wants_motion = true;
            proof {
                assert(names[k as int] != "partials"@);
            }
        }
        k = k + 1;
    }
    if wants_partials && wants_motion {
        return Err(FitError::PartialsNotAlone);
    }
    if wants_partials {
        return Ok(Driver::Partials(rest));
    }
    let ghost base = views(rest@);
    let mut out = rest;
    let mut j: usize = 0;
    proof {
        assert(names.take(0) =~= Seq::<Seq<char>>::empty());
    }
    while j < stages.len()
        invariant
            j <= stages.len(),
            names == views(stages@),
            views(out@) == forwarded(base, names.take(j as int)),
        decreases stages.len() - j,
    {
        let ghost before = views(out@);
        out.push(String::from_str("--stage"));
        proof {
            assert(views(out@) =~= before.push("--stage"@));
        }
        let ghost middle = views(out@);
        out.push(stages[j].clone());
        proof {
            assert(views(out@) =~= middle.push(names[j as int]));
            assert(names.take(j + 1).drop_last() =~= names.take(j as int));
        }
        j = j + 1;
    }
    proof {
        assert(names.take(j as int) =~= names);
    }
    Ok(Driver::Motion(out))
}

impl FitError {
    /// What the error says.
    pub open spec fn says(self) -> Seq<char> {
        match self {
            FitError::MissingStageName => "--stage needs a name"@,
            FitError::UnknownStage(name) => "unknown stage "@ + quoted(name@)
                + "; stages are partials, "@ + joined(motion_stages(), ", "@),
            FitError::PartialsNotAlone =>
                "`--stage partials` runs alone: it is not re-entrant and is fitted from the survey base, where the motion stages are fitted from the preset they are written into"@,
        }
    }

    /// What the error says.
    pub fn message(&self) -> (r: String)
        ensures
            r@ == self.says(),
    {
        match self {
            FitError::MissingStageName => String::from_str("--stage needs a name"),
            FitError::UnknownStage(name) => {
                let mut out = String::from_str("unknown stage ");
                out.append(quote(name.as_str()).as_str());
                out.append("; stages are partials, ");
                out.append(crate::text::join(&motion_stage_names(), ", ").as_str());
                out
            },
            FitError::PartialsNotAlone => String::from_str(
                "`--stage partials` runs alone: it is not re-entrant and is fitted from the survey base, where the motion stages are fitted from the preset they are written into",
            ),
        }
    }
}

/// No argument that is passed through is a `--stage` flag, and no argument is
/// lost: stage flags, names and the rest make up the command line.
pub proof fn the_rest_names_no_stage(args: Seq<Seq<char>>)
    ensures
        split(args) matches Some(s) ==> !s.rest.contains("--stage"@) && args.len() == 2
            * s.stages.len() + s.rest.len(),
    decreases args.len(),
{
    if args.len() == 0 {
    } else if args[0] == "--stage"@ {
        if args.len() > 1 {
            the_rest_names_no_stage(args.skip(2));
        }
    } else {
        the_rest_names_no_stage(args.skip(1));
        if split(args) is Some {
            let s = split(args)->0;
            let t = split(args.skip(1))->0;
            assert forall|i: int| 0 <= i < s.rest.len() implies s.rest[i] != "--stage"@ by {
                if i > 0 {
                    assert(s.rest[i] == t.rest[i - 1]);
                }
            }
        }
    }
}

/// What the motion driver is handed splits again into the same stages and the
/// same other arguments.
pub proof fn forwarding_loses_nothing(args: Seq<Seq<char>>)
    requires
        split(args) is Some,
    ensures
        split(forwarded(split(args)->0.rest, split(args)->0.stages)) == split(args),
{
    let s = split(args)->0;
    the_rest_names_no_stage(args);
    split_of_forwarded(s.rest, s.stages);
}

proof fn split_of_forwarded(rest: Seq<Seq<char>>, stages: Seq<Seq<char>>)
    requires
        !rest.contains("--stage"@),
    ensures
        split(forwarded(rest, stages)) == Some(Split { stages, rest }),
    decreases stages.len(),
{
    if stages.len() == 0 {
        split_of_plain(rest);
        assert(stages =~= Seq::empty());
    } else {
        let front = forwarded(rest, stages.drop_last());
        split_of_forwarded(rest, stages.drop_last());
        split_of_appended(front, stages.last());
        assert(stages.drop_last().push(stages.last()) =~= stages);
        assert(front.push("--stage"@).push(stages.last()) =~= front + seq![
            "--stage"@,
            stages.last(),
        ]);
    }
}

proof fn split_of_plain(rest: Seq<Seq<char>>)
    requires
        !rest.contains("--stage"@),
    ensures
        split(rest) == Some(Split { stages: Seq::empty(), rest }),
    decreases rest.len(),
{
    if rest.len() == 0 {
        assert(rest =~= Seq::empty());
    } else {
        assert(rest[0] != "--stage"@);
        assert forall|i: int| 0 <= i < rest.skip(1).len() implies rest.skip(1)[i] != "--stage"@ by {
            assert(rest.skip(1)[i] == rest[i + 1]);
        }
        split_of_plain(rest.skip(1));
        assert(seq![rest[0]] + rest.skip(1) =~= rest);
    }
}

proof fn split_of_appended(front: Seq<Seq<char>>, stage: Seq<char>)
    requires
        split(front) is Some,
    ensures
        split(front + seq!["--stage"@, stage]) == Some(
            Split {
                stages: split(front)->0.stages.push(stage),
                rest: split(front)->0.rest,
            },
        ),
    decreases front.len(),
{
    let tail = seq!["--stage"@, stage];
    let whole = front + tail;
    reveal_with_fuel(split, 2);
    if front.len() == 0 {
        assert(whole.skip(2) =~= Seq::<Seq<char>>::empty());
        assert(seq![stage] + Seq::<Seq<char>>::empty() =~= Seq::<Seq<char>>::empty().push(stage));
    } else if front[0] == "--stage"@ {
        split_of_appended(front.skip(2), stage);
        assert(whole.skip(2) =~= front.skip(2) + tail);
        let t = split(front.skip(2))->0;
        assert((seq![front[1]] + t.stages).push(stage) =~= seq![front[1]] + t.stages.push(stage));
    } else {
        split_of_appended(front.skip(1), stage);
        assert(whole.skip(1) =~= front.skip(1) + tail);
    }
}

} // verus!
