//! Copying to the clipboard: which programs are tried, and what is reported
//! where none of them takes the text.
use vstd::prelude::*;

use crate::text::{joined, joined3};

verus! {

/// What became of one clipboard program.
#[derive(Debug)]
pub enum CopyOutcome {
    /// It took the text.
    Copied,
    /// There is no such program.
    Missing,
    /// It could not be started, with the reason.
    NotStarted(String),
    /// It has no input to write to.
    NoInput,
    /// The text could not be written, with the reason.
    NotWritten(String),
    /// It ended without success, with its status.
    Exited(String),
    /// Its end could not be awaited, with the reason.
    NotAwaited(String),
}

/// What a failed attempt with `program` is reported as; `None` where there is
/// nothing to report.
pub open spec fn outcome_text(program: Seq<char>, outcome: CopyOutcome) -> Option<Seq<char>> {
    match outcome {
        CopyOutcome::Copied => None,
        CopyOutcome::Missing => None,
        CopyOutcome::NotStarted(e) => Some("could not start "@ + program + ": "@ + e@),
        CopyOutcome::NoInput => Some("could not open "@ + program + " input"@),
        CopyOutcome::NotWritten(e) => Some("could not write to "@ + program + ": "@ + e@),
        CopyOutcome::Exited(status) => Some(program + " exited with "@ + status@),
        CopyOutcome::NotAwaited(e) => Some("could not wait for "@ + program + ": "@ + e@),
    }
}

fn describe(program: &str, outcome: &CopyOutcome) -> (r: Option<String>)
    ensures
        r is Some <==> outcome_text(program@, *outcome) is Some,
        r matches Some(t) ==> Some(t@) == outcome_text(program@, *outcome),
{
    match outcome {
        CopyOutcome::Copied => None,
        CopyOutcome::Missing => None,
        CopyOutcome::NotStarted(e) => {
            Some(joined(joined3("could not start ", program, ": ").as_str(), e.as_str()))
        },
        CopyOutcome::NoInput => Some(joined3("could not open ", program, " input")),
        CopyOutcome::NotWritten(e) => {
            Some(joined(joined3("could not write to ", program, ": ").as_str(), e.as_str()))
        },
        CopyOutcome::Exited(status) => Some(joined3(program, " exited with ", status.as_str())),
        CopyOutcome::NotAwaited(e) => {
            Some(joined(joined3("could not wait for ", program, ": ").as_str(), e.as_str()))
        },
    }
}

/// Clipboard programs with their arguments, in the order they are tried.
pub open spec fn linux_programs() -> Seq<(Seq<char>, Seq<Seq<char>>)> {
    seq![
        ("wl-copy"@, seq![]),
        ("xclip"@, seq!["-selection"@, "clipboard"@]),
        ("xsel"@, seq!["--clipboard"@, "--input"@]),
    ]
}

/// A clipboard program and the arguments it is started with.
#[derive(Debug, Clone)]
pub struct ClipboardProgram {
    pub name: &'static str,
    pub args: Vec<&'static str>,
}

impl ClipboardProgram {
    pub open spec fn model(self) -> (Seq<char>, Seq<Seq<char>>) {
        (self.name@, self.args@.map_values(|a: &'static str| a@))
    }
}

/// The systems that differ in their clipboard programs.
#[derive(Debug, Clone, Copy, PartialEq, Eq, Structural)]
pub enum Platform {
    Mac,
    Windows,
    OtherUnix,
}

pub open spec fn platform_programs(platform: Platform) -> Seq<(Seq<char>, Seq<Seq<char>>)> {
    match platform {
        Platform::Mac => seq![("pbcopy"@, seq![])],
        Platform::Windows => seq![("clip"@, seq![])],
        Platform::OtherUnix => linux_programs(),
    }
}

/// The clipboard programs of `platform`, in the order they are tried.
pub fn clipboard_programs(platform: Platform) -> (r: Vec<ClipboardProgram>)
    ensures
        r@.map_values(|p: ClipboardProgram| p.model()) == platform_programs(platform),
{
    let list: Vec<ClipboardProgram> = match platform {
        Platform::Mac => vec![ClipboardProgram { name: "pbcopy", args: Vec::new() }],
        Platform::Windows => vec![ClipboardProgram { name: "clip", args: Vec::new() }],
        Platform::OtherUnix => vec![
            ClipboardProgram { name: "wl-copy", args: Vec::new() },
            ClipboardProgram { name: "xclip", args: vec!["-selection", "clipboard"] },
            ClipboardProgram { name: "xsel", args: vec!["--clipboard", "--input"] },
        ],
    };
    proof {
        let got = list@.map_values(|p: ClipboardProgram| p.model());
        let want = platform_programs(platform);
        assert forall|i: int| 0 <= i < got.len() implies #[trigger] got[i] == want[i] by {
            assert(got[i].1 =~= want[i].1);
        }
        assert(got =~= want);
    }
    list
}

/// What is known after some of the programs were tried.
#[derive(Debug)]
pub struct CopyAttempt {
    pub copied: bool,
    /// The report of the last attempt that left one.
    pub last_error: Option<String>,
}

/// What trying programs one after the other comes to.
#[verifier::ext_equal]
pub struct CopyView {
    pub copied: bool,
    pub last_error: Option<Seq<char>>,
}

impl View for CopyAttempt {
    type V = CopyView;

    open spec fn view(&self) -> CopyView {
        CopyView {
            copied: self.copied,
            last_error: match self.last_error {
                Some(e) => Some(e@),
                None => None,
            },
        }
    }
}

impl CopyView {
    pub open spec fn start() -> CopyView {
        CopyView { copied: false, last_error: None }
    }

    pub open spec fn tried(self, program: Seq<char>, outcome: CopyOutcome) -> CopyView {
        CopyView {
            copied: self.copied || outcome is Copied,
            last_error: match outcome_text(program, outcome) {
                Some(t) => Some(t),
                None => self.last_error,
            },
        }
    }

    /// The end of the matter, once no program is left or one took the text.
    pub open spec fn verdict(self) -> Result<(), Seq<char>> {
        if self.copied {
            Ok(())
        } else {
            match self.last_error {
                Some(t) => Err(t),
                None => Err("no supported clipboard utility was found"@),
            }
        }
    }

    /// What all of `steps` come to, in order.
    pub open spec fn after(steps: Seq<(Seq<char>, CopyOutcome)>) -> CopyView
        decreases steps.len(),
    {
        if steps.len() == 0 {
            CopyView::start()
        } else {
            CopyView::after(steps.drop_last()).tried(steps.last().0, steps.last().1)
        }
    }
}

impl CopyAttempt {
    /// Before the first program.
    pub fn new() -> (r: CopyAttempt)
        ensures
            r@ == CopyView::start(),
    {
        CopyAttempt { copied: false, last_error: None }
    }

    /// Takes up what became of `program`. True while the next one is to be
    /// tried.
    pub fn record(&mut self, program: &str, outcome: CopyOutcome) -> (more: bool)
        ensures
            final(self)@ == old(self)@.tried(program@, outcome),
            more == !final(self)@.copied,
    {
        if let Some(text) = describe(program, &outcome) {
            self.last_error = Some(text);
        }
        if let CopyOutcome::Copied = outcome {
            self.copied = true;
        }
        !self.copied
    }

    /// Success where a program took the text, else the last report.
    pub fn finish(self) -> (r: Result<(), String>)
        ensures
            match self@.verdict() {
                Ok(()) => r is Ok,
                Err(t) => r is Err && r->Err_0@ == t,
            },
    {
        if self.copied {
            return Ok(());
        }
        match self.last_error {
            Some(e) => Err(e),
            None => Err("no supported clipboard utility was found".to_owned()),
        }
    }
}

/// Copying succeeds exactly where one of the programs took the text.
pub proof fn copy_succeeds_where_one_program_does(steps: Seq<(Seq<char>, CopyOutcome)>)
    ensures
        CopyView::after(steps).verdict() is Ok <==> exists|i: int|
            0 <= i < steps.len() && (#[trigger] steps[i]).1 is Copied,
    decreases steps.len(),
{
    if steps.len() > 0 {
        let rest = steps.drop_last();
        copy_succeeds_where_one_program_does(rest);
        if CopyView::after(rest).copied {
            let i = choose|i: int| 0 <= i < rest.len() && (#[trigger] rest[i]).1 is Copied;
            assert(steps[i].1 is Copied);
        }
        if steps.last().1 is Copied {
            assert(steps[steps.len() - 1].1 is Copied);
        }
        if exists|i: int| 0 <= i < steps.len() && (#[trigger] steps[i]).1 is Copied {
            let i = choose|i: int| 0 <= i < steps.len() && (#[trigger] steps[i]).1 is Copied;
            if i < rest.len() {
                assert(rest[i].1 is Copied);
            }
        }
    }
}

/// Programs that are not installed leave no trace: where there is none at all,
/// that is what is reported.
pub proof fn missing_programs_are_passed_over(steps: Seq<(Seq<char>, CopyOutcome)>)
    requires
        forall|i: int| 0 <= i < steps.len() ==> (#[trigger] steps[i]).1 is Missing,
    ensures
        CopyView::after(steps).verdict() == Err::<(), Seq<char>>(
            "no supported clipboard utility was found"@,
        ),
    decreases steps.len(),
{
    if steps.len() > 0 {
        let rest = steps.drop_last();
        assert forall|i: int| 0 <= i < rest.len() implies (#[trigger] rest[i]).1 is Missing by {
            assert(rest[i] == steps[i]);
        }
        missing_programs_are_passed_over(rest);
        assert(steps[steps.len() - 1].1 is Missing);
        assert(CopyView::after(steps) == CopyView::after(rest));
    }
}

} // verus!
