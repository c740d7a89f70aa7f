//! The ordered steps of one conversion run. The library decides what to do
//! next from what has happened; the caller performs each action (a file
//! write, a tool run, a removal, a read) and reports how it went.
use vstd::prelude::*;
use vstd::string::*;
use crate::colorize::{colorized, process_svg};
use crate::template::{wrapped, wrap_latex};

verus! {

/// The steps of a run, in the order they are taken.
#[derive(Clone, Copy, Debug, PartialEq, Eq, Structural)]
pub enum Stage {
    WriteSource,
    Typeset,
    Convert,
    RemoveSource,
    RemoveAux,
    RemoveDvi,
    RemoveLog,
    ReadSvg,
    WriteSvg,
    Done,
}

/// The position of a stage in a run.
pub open spec fn rank(s: Stage) -> nat {
    match s {
        Stage::WriteSource => 0,
        Stage::Typeset => 1,
        Stage::Convert => 2,
        Stage::RemoveSource => 3,
        Stage::RemoveAux => 4,
        Stage::RemoveDvi => 5,
        Stage::RemoveLog => 6,
        Stage::ReadSvg => 7,
        Stage::WriteSvg => 8,
        Stage::Done => 9,
    }
}

/// The stage that follows `s` once it has succeeded.
pub open spec fn next_stage(s: Stage) -> Stage {
    match s {
        Stage::WriteSource => Stage::Typeset,
        Stage::Typeset => Stage::Convert,
        Stage::Convert => Stage::RemoveSource,
        Stage::RemoveSource => Stage::RemoveAux,
        Stage::RemoveAux => Stage::RemoveDvi,
        Stage::RemoveDvi => Stage::RemoveLog,
        Stage::RemoveLog => Stage::ReadSvg,
        Stage::ReadSvg => Stage::WriteSvg,
        Stage::WriteSvg => Stage::Done,
        Stage::Done => Stage::Done,
    }
}

/// What the caller is to do next.
pub enum Action {
    /// Write `contents` to the file at `path`, replacing what it held.
    Write { path: String, contents: String },
    /// Run `program` with `args` and wait for it; it succeeded if it exited
    /// with success.
    Run { program: String, args: Vec<String> },
    /// Delete the file at `path`.
    Remove { path: String },
    /// Read the file at `path` as text and report that text.
    Read { path: String },
    /// The run is complete.
    Finish,
    /// The run stopped: the action of `stage` failed.
    Abort { stage: Stage },
}

/// An action as plain text.
pub enum ActionView {
    Write { path: Seq<char>, contents: Seq<char> },
    Run { program: Seq<char>, args: Seq<Seq<char>> },
    Remove { path: Seq<char> },
    Read { path: Seq<char> },
    Finish,
    Abort { stage: Stage },
}

impl View for Action {
    type V = ActionView;

    open spec fn view(&self) -> ActionView {
        match self {
            Action::Write { path, contents } => ActionView::Write {
                path: path@,
                contents: contents@,
            },
            Action::Run { program, args } => ActionView::Run {
                program: program@,
                args: args@.map_values(|a: String| a@),
            },
            Action::Remove { path } => ActionView::Remove { path: path@ },
            Action::Read { path } => ActionView::Read { path: path@ },
            Action::Finish => ActionView::Finish,
            Action::Abort { stage } => ActionView::Abort { stage: *stage },
        }
    }
}

/// How the caller's last action went.
pub enum Outcome {
    /// It succeeded.
    Done,
    /// It succeeded and read this text.
    Text(String),
    /// It failed.
    Failed,
}

/// The path of the intermediate file of `base` with extension `ext`.
pub open spec fn artifact(base: Seq<char>, ext: Seq<char>) -> Seq<char> {
    base + "."@ + ext
}

impl View for Outcome {
    type V = OutcomeView;

    open spec fn view(&self) -> OutcomeView {
        match self {
            Outcome::Done => OutcomeView::Done,
            Outcome::Text(t) => OutcomeView::Text(t@),
            Outcome::Failed => OutcomeView::Failed,
        }
    }
}

/// An outcome as plain text.
pub enum OutcomeView {
    Done,
    Text(Seq<char>),
    Failed,
}

/// A run in progress: what it was asked to do, the SVG text read so far,
/// the stage it stands at, and whether that stage failed.
pub struct Pipeline {
    base: String,
    color: String,
    expression: String,
    svg: String,
    stage: Stage,
    failed: bool,
}

/// A run in progress as plain values.
pub struct PipelineView {
    pub base: Seq<char>,
    pub color: Seq<char>,
    pub expression: Seq<char>,
    pub svg: Seq<char>,
    pub stage: Stage,
    pub failed: bool,
}

impl View for Pipeline {
    type V = PipelineView;

    closed spec fn view(&self) -> PipelineView {
        PipelineView {
            base: self.base@,
            color: self.color@,
            expression: self.expression@,
            svg: self.svg@,
            stage: self.stage,
            failed: self.failed,
        }
    }
}

/// The arguments of the DVI-to-SVG converter: no embedded fonts, a scale of
/// 20, an exact bounding box, reading `<base>.dvi` and writing `<base>`.
pub open spec fn convert_args(base: Seq<char>) -> Seq<Seq<char>> {
    seq!["--no-fonts"@, "--scale=20"@, "--exact"@, artifact(base, "dvi"@), "-o"@, base]
}

/// What a run in state `v` asks the caller to do.
pub open spec fn stage_action(v: PipelineView) -> ActionView {
    if v.failed {
        ActionView::Abort { stage: v.stage }
    } else {
        match v.stage {
            Stage::WriteSource => ActionView::Write {
                path: artifact(v.base, "tex"@),
                contents: wrapped(v.expression),
            },
            Stage::Typeset => ActionView::Run {
                program: "latex"@,
                args: seq![artifact(v.base, "tex"@)],
            },
            Stage::Convert => ActionView::Run { program: "dvisvgm"@, args: convert_args(v.base) },
            Stage::RemoveSource => ActionView::Remove { path: artifact(v.base, "tex"@) },
            Stage::RemoveAux => ActionView::Remove { path: artifact(v.base, "aux"@) },
            Stage::RemoveDvi => ActionView::Remove { path: artifact(v.base, "dvi"@) },
            Stage::RemoveLog => ActionView::Remove { path: artifact(v.base, "log"@) },
            Stage::ReadSvg => ActionView::Read { path: v.base },
            Stage::WriteSvg => ActionView::Write {
                path: v.base,
                contents: colorized(v.svg, v.color),
            },
            Stage::Done => ActionView::Finish,
        }
    }
}

/// The state that follows `v` once the caller reports `o`. A failure stops
/// the run where it stands; reading the SVG succeeds only with its text; a
/// stopped or complete run stays as it is.
pub open spec fn next_state(v: PipelineView, o: OutcomeView) -> PipelineView {
    if v.failed || v.stage == Stage::Done {
        v
    } else {
        match o {
            OutcomeView::Failed => PipelineView { failed: true, ..v },
            OutcomeView::Text(t) => if v.stage == Stage::ReadSvg {
                PipelineView { svg: t, stage: Stage::WriteSvg, ..v }
            } else {
                PipelineView { stage: next_stage(v.stage), ..v }
            },
            OutcomeView::Done => if v.stage == Stage::ReadSvg {
                PipelineView { failed: true, ..v }
            } else {
                PipelineView { stage: next_stage(v.stage), ..v }
            },
        }
    }
}

/// Whether action `a` may bring the file at `path` into being: a tool run
/// may write any file, a write writes its own.
pub open spec fn may_create(a: ActionView, path: Seq<char>) -> bool {
    match a {
        ActionView::Run { .. } => true,
        ActionView::Write { path: p, .. } => p == path,
        _ => false,
    }
}

/// The state `v` moved to stage `s`.
pub open spec fn at_stage(v: PipelineView, s: Stage) -> PipelineView {
    PipelineView { stage: s, ..v }
}

/// A run in which every action succeeds goes through every stage once, in
/// order, from writing the source to the end. Each of the four intermediate
/// files `<base>.tex`, `<base>.aux`, `<base>.dvi` and `<base>.log` is removed
/// at some stage, and no later stage runs a tool or writes that file. The
/// last action before the end writes the colored SVG to `<base>`.
pub proof fn lemma_run_cleans_up(v: PipelineView, ext: Seq<char>)
    requires
        !v.failed,
        ext == "tex"@ || ext == "aux"@ || ext == "dvi"@ || ext == "log"@,
    ensures
        rank(Stage::WriteSource) == 0,
        forall|s: Stage| s != Stage::Done ==> rank(#[trigger] next_stage(s)) == rank(s) + 1,
        exists|r: Stage|
            {
                &&& stage_action(at_stage(v, r)) == (ActionView::Remove {
                    path: artifact(v.base, ext),
                })
                &&& forall|s: Stage|
                    rank(s) > rank(r) ==> !may_create(
                        #[trigger] stage_action(at_stage(v, s)),
                        artifact(v.base, ext),
                    )
            },
        stage_action(at_stage(v, Stage::WriteSvg)) == (ActionView::Write {
            path: v.base,
            contents: colorized(v.svg, v.color),
        }),
        next_stage(Stage::WriteSvg) == Stage::Done,
        stage_action(at_stage(v, Stage::Done)) == ActionView::Finish,
{
    let path = artifact(v.base, ext);
    reveal_strlit(".");
    assert(path.len() > v.base.len());
    assert(path != v.base);
    let r = if ext == "tex"@ {
        Stage::RemoveSource
    } else if ext == "aux"@ {
        Stage::RemoveAux
    } else if ext == "dvi"@ {
        Stage::RemoveDvi
    } else {
        Stage::RemoveLog
    };
    assert(stage_action(at_stage(v, r)) == (ActionView::Remove { path }));
    assert forall|s: Stage| rank(s) > rank(r) implies !may_create(
        #[trigger] stage_action(at_stage(v, s)),
        path,
    ) by {}
}

/// `<base>.<ext>`.
fn artifact_path(base: &String, ext: &str) -> (r: String)
    ensures
        r@ == artifact(base@, ext@),
{
    let mut r = base.clone();
    r.append(".");
    r.append(ext);
    r
}

impl Pipeline {
    /// A run that converts `expression` into the file `base`, colored with
    /// `color`, using `base` with an extension for each intermediate file.
    pub fn new(base: &str, color: &str, expression: &str) -> (p: Pipeline)
        ensures
            p@ == (PipelineView {
                base: base@,
                color: color@,
                expression: expression@,
                svg: Seq::empty(),
                stage: Stage::WriteSource,
                failed: false,
            }),
    {
        Pipeline {
            base: base.to_owned(),
            color: color.to_owned(),
            expression: expression.to_owned(),
            svg: String::new(),
            stage: Stage::WriteSource,
            failed: false,
        }
    }

    /// The stage the run stands at.
    pub fn stage(&self) -> (s: Stage)
        ensures
            s == self@.stage,
    {
        self.stage
    }

    /// What the caller is to do next.
    pub fn action(&self) -> (a: Action)
        ensures
            a@ == stage_action(self@),
    {
        if self.failed {
            return Action::Abort { stage: self.stage };
        }
        match self.stage {
            Stage::WriteSource => Action::Write {
                path: artifact_path(&self.base, "tex"),
                contents: wrap_latex(self.expression.as_str()),
            },
            Stage::Typeset => {
                let args = vec![artifact_path(&self.base, "tex")];
                let a = Action::Run { program: String::from_str("latex"), args };
                assert(a@ == stage_action(self@)) by {
                    assert(args@.map_values(|a: String| a@) =~= seq![artifact(self.base@, "tex"@)]);
                }
                a
            },
            Stage::Convert => {
                let args = vec![
                    String::from_str("--no-fonts"),
                    String::from_str("--scale=20"),
                    String::from_str("--exact"),
                    artifact_path(&self.base, "dvi"),
                    String::from_str("-o"),
                    self.base.clone(),
                ];
                let a = Action::Run { program: String::from_str("dvisvgm"), args };
                assert(a@ == stage_action(self@)) by {
                    assert(args@.map_values(|a: String| a@) =~= convert_args(self.base@));
                }
                a
            },
            Stage::RemoveSource => Action::Remove { path: artifact_path(&self.base, "tex") },
            Stage::RemoveAux => Action::Remove { path: artifact_path(&self.base, "aux") },
            Stage::RemoveDvi => Action::Remove { path: artifact_path(&self.base, "dvi") },
            Stage::RemoveLog => Action::Remove { path: artifact_path(&self.base, "log") },
            Stage::ReadSvg => Action::Read { path: self.base.clone() },
            Stage::WriteSvg => Action::Write {
                path: self.base.clone(),
                contents: process_svg(self.svg.as_str(), self.color.as_str()),
            },
            Stage::Done => Action::Finish,
        }
    }

    /// Takes the outcome of the last action into account.
    pub fn step(&mut self, outcome: Outcome)
        ensures
            final(self)@ == next_state(old(self)@, outcome@),
    {
        if self.failed || self.stage == Stage::Done {
            return;
        }
        match outcome {
            Outcome::Failed => {
                self.failed = true;
            },
            Outcome::Text(t) => {
                if self.stage == Stage::ReadSvg {
                    self.svg = t;
                    self.stage = Stage::WriteSvg;
                } else {
                    self.stage = next(self.stage);
                }
            },
            Outcome::Done => {
                if self.stage == Stage::ReadSvg {
                    self.failed = true;
                } else {
                    self.stage = next(self.stage);
                }
            },
        }
    }
}

/// The stage that follows `s` once it has succeeded.
fn next(s: Stage) -> (r: Stage)
    ensures
        r == next_stage(s),
{
    match s {
        Stage::WriteSource => Stage::Typeset,
        Stage::Typeset => Stage::Convert,
        Stage::Convert => Stage::RemoveSource,
        Stage::RemoveSource => Stage::RemoveAux,
        Stage::RemoveAux => Stage::RemoveDvi,
        Stage::RemoveDvi => Stage::RemoveLog,
        Stage::RemoveLog => Stage::ReadSvg,
        Stage::ReadSvg => Stage::WriteSvg,
        Stage::WriteSvg => Stage::Done,
        Stage::Done => Stage::Done,
    }
}

} // verus!
