//! The process runner's decisions: where a command's executable lies, what is
//! handed to it, and how its end is classified.
//!
//! Each command is an executable of its own that lies beside the shell's binary.
//! Probing the file system and spawning are left to the caller; what is probed,
//! what is spawned and what the outcome means is decided here.

use vstd::prelude::*;
use vstd::string::*;
use crate::text::{chars_of, lemma_views_push, string_of, views};

verus! {

/// One command to carry out: its name and its positional arguments.
#[derive(Clone, Debug, PartialEq, Eq)]
pub struct InvocationRequest {
    pub command: String,
    pub arguments: Vec<String>,
}

/// An `InvocationRequest` as plain values.
pub struct RequestView {
    pub command: Seq<char>,
    pub arguments: Seq<Seq<char>>,
}

impl View for InvocationRequest {
    type V = RequestView;

    open spec fn view(&self) -> RequestView {
        RequestView { command: self.command@, arguments: views(self.arguments@) }
    }
}

/// What to spawn: the executable's path and the arguments handed to it.
#[derive(Clone, Debug, PartialEq, Eq)]
pub struct Launch {
    pub path: String,
    pub arguments: Vec<String>,
}

/// A `Launch` as plain values.
pub struct LaunchView {
    pub path: Seq<char>,
    pub arguments: Seq<Seq<char>>,
}

impl View for Launch {
    type V = LaunchView;

    open spec fn view(&self) -> LaunchView {
        LaunchView { path: self.path@, arguments: views(self.arguments@) }
    }
}

/// What the caller observed when it spawned a `Launch`.
#[derive(Clone, Debug, PartialEq, Eq)]
pub enum RunEvent {
    /// The process ran and ended with this exit code.
    Exited(i32),
    /// The operating system refused to start the process.
    LaunchFailed(String),
}

/// How an invocation ended.
#[derive(Clone, Debug, PartialEq, Eq)]
pub enum ExitClassification {
    Success,
    NonZeroExit(i32),
    NotFound,
    LaunchFailed(String),
}

/// An `ExitClassification` as plain values.
pub enum ClassificationView {
    Success,
    NonZeroExit(i32),
    NotFound,
    LaunchFailed(Seq<char>),
}

impl View for ExitClassification {
    type V = ClassificationView;

    open spec fn view(&self) -> ClassificationView {
        match self {
            ExitClassification::Success => ClassificationView::Success,
            ExitClassification::NonZeroExit(code) => ClassificationView::NonZeroExit(*code),
            ExitClassification::NotFound => ClassificationView::NotFound,
            ExitClassification::LaunchFailed(reason) => ClassificationView::LaunchFailed(reason@),
        }
    }
}

/// What follows the probe for the executable.
#[derive(Clone, Debug, PartialEq, Eq)]
pub enum AfterProbe {
    /// The file is there: spawn it, wait for its end, and classify that.
    Spawn(Launch),
    /// The invocation is over without a process.
    Done(ExitClassification),
}

/// An `AfterProbe` as plain values.
pub enum AfterProbeView {
    Spawn(LaunchView),
    Done(ClassificationView),
}

impl View for AfterProbe {
    type V = AfterProbeView;

    open spec fn view(&self) -> AfterProbeView {
        match self {
            AfterProbe::Spawn(launch) => AfterProbeView::Spawn(launch@),
            AfterProbe::Done(classification) => AfterProbeView::Done(classification@),
        }
    }
}

/// The outcome of one invocation, with the time it took.
#[derive(Clone, Debug, PartialEq, Eq)]
pub struct InvocationResult {
    pub classification: ExitClassification,
    pub elapsed_nanos: u128,
}

/// The classification that an observed end stands for.
pub open spec fn classification_of(event: RunEvent) -> ClassificationView {
    match event {
        RunEvent::Exited(code) => if code == 0 {
            ClassificationView::Success
        } else {
            ClassificationView::NonZeroExit(code)
        },
        RunEvent::LaunchFailed(reason) => ClassificationView::LaunchFailed(reason@),
    }
}

/// `name` inside the directory `dir`: the two joined by one `/`, which is left
/// out where `dir` is empty or already ends in one.
pub open spec fn sibling_path(dir: Seq<char>, name: Seq<char>) -> Seq<char> {
    if dir.len() == 0 || dir.last() == '/' {
        dir + name
    } else {
        dir + seq!['/'] + name
    }
}

/// The time between two readings of a clock that does not run backwards; zero
/// where the second reading lies before the first.
pub open spec fn elapsed_between(start: u128, end: u128) -> u128 {
    if end >= start {
        (end - start) as u128
    } else {
        0
    }
}

/// Appends the characters of `part` to `out`.
fn append_chars(out: &mut Vec<char>, part: &Vec<char>)
    ensures
        final(out)@ == old(out)@ + part@,
{
    let mut i: usize = 0;
    while i < part.len()
        invariant
            i <= part@.len(),
            out@ == old(out)@ + part@.subrange(0, i as int),
        decreases part@.len() - i,
    {
        out.push(part[i]);
        assert(out@ =~= old(out)@ + part@.subrange(0, i + 1));
        i += 1;
    }
    assert(part@.subrange(0, part@.len() as int) =~= part@);
}

/// The path of the executable `name` in the directory `dir`.
pub fn candidate_path(dir: &str, name: &str) -> (path: String)
    ensures
        path@ == sibling_path(dir@, name@),
{
    let d: Vec<char> = chars_of(dir);
    let n: Vec<char> = chars_of(name);
    let mut all: Vec<char> = Vec::new();
    append_chars(&mut all, &d);
    assert(all@ =~= d@);
    if d.len() > 0 && d[d.len() - 1] != '/' {
        all.push('/');
    }
    append_chars(&mut all, &n);
    let path: String = string_of(&all, 0, all.len());
    assert(all@.subrange(0, all@.len() as int) =~= all@);
    assert(all@ =~= sibling_path(dir@, name@));
    path
}

/// Copies `items[from..]`.
pub fn tail_of(items: &Vec<String>, from: usize) -> (tail: Vec<String>)
    requires
        from <= items@.len(),
    ensures
        views(tail@) == views(items@).skip(from as int),
{
    let mut tail: Vec<String> = Vec::new();
    let mut i: usize = from;
    while i < items.len()
        invariant
            from <= i <= items@.len(),
            views(tail@) == views(items@).subrange(from as int, i as int),
        decreases items@.len() - i,
    {
        let item: String = items[i].clone();
        proof {
            lemma_views_push(tail@, item);
            assert(item@ == views(items@)[i as int]);
            assert(views(tail@).push(item@) =~= views(items@).subrange(from as int, i + 1));
        }
        tail.push(item);
        i += 1;
    }
    assert(views(items@).subrange(from as int, items@.len() as int) =~= views(items@).skip(
        from as int,
    ));
    tail
}

/// Decides what to spawn for the argument list `args`, whose first element names
/// the command: the executable of that name in `bin_dir`, with the remaining
/// elements forwarded as they are. An empty list names no command.
pub fn execute_command(args: &Vec<String>, bin_dir: &str) -> (launch: Option<Launch>)
    ensures
        args@.len() == 0 ==> launch is None,
        args@.len() > 0 ==> launch is Some && launch->0@ == (LaunchView {
            path: sibling_path(bin_dir@, args@[0]@),
            arguments: views(args@).skip(1),
        }),
{
    if args.len() == 0 {
        return None;
    }
    let path: String = candidate_path(bin_dir, args[0].as_str());
    let arguments: Vec<String> = tail_of(args, 1);
    Some(Launch { path, arguments })
}

/// The argument list that stands for `request`: the command's name, then its
/// arguments.
pub fn full_arguments(request: &InvocationRequest) -> (args: Vec<String>)
    ensures
        views(args@) == seq![request@.command] + request@.arguments,
{
    let mut args: Vec<String> = Vec::new();
    let name: String = request.command.clone();
    args.push(name);
    assert(views(args@) =~= seq![request@.command]);
    let mut i: usize = 0;
    while i < request.arguments.len()
        invariant
            i <= request.arguments@.len(),
            views(args@) == seq![request@.command] + request@.arguments.subrange(0, i as int),
        decreases request.arguments@.len() - i,
    {
        let item: String = request.arguments[i].clone();
        proof {
            lemma_views_push(args@, item);
            assert(item@ == request@.arguments[i as int]);
            assert(views(args@).push(item@) =~= seq![request@.command]
                + request@.arguments.subrange(0, i + 1));
        }
        args.push(item);
        i += 1;
    }
    assert(request@.arguments.subrange(0, request.arguments@.len() as int)
        =~= request@.arguments);
    args
}

/// Decides what follows the probe: a file that is present is spawned; for an
/// absent one the invocation ends as `NotFound`, and no process is spawned.
pub fn after_probe(launch: Launch, present: bool) -> (next: AfterProbe)
    ensures
        present ==> next@ == AfterProbeView::Spawn(launch@),
        !present ==> next@ == AfterProbeView::Done(ClassificationView::NotFound),
{
    if present {
        AfterProbe::Spawn(launch)
    } else {
        AfterProbe::Done(ExitClassification::NotFound)
    }
}

/// Classifies what the caller observed.
pub fn classify(event: RunEvent) -> (classification: ExitClassification)
    ensures
        classification@ == classification_of(event),
{
    match event {
        RunEvent::Exited(code) => if code == 0 {
            ExitClassification::Success
        } else {
            ExitClassification::NonZeroExit(code)
        },
        RunEvent::LaunchFailed(reason) => ExitClassification::LaunchFailed(reason),
    }
}

/// The time that passed between two clock readings, in the unit of the readings.
pub fn elapsed(start: u128, end: u128) -> (nanos: u128)
    ensures
        nanos == elapsed_between(start, end),
{
    if end >= start {
        end - start
    } else {
        0
    }
}

/// Puts a classification and the clock readings taken just before and just after
/// the invocation into a result.
pub fn conclude(classification: ExitClassification, start: u128, end: u128) -> (result:
    InvocationResult)
    ensures
        result.classification == classification,
        result.elapsed_nanos == elapsed_between(start, end),
{
    InvocationResult { classification, elapsed_nanos: elapsed(start, end) }
}

} // verus!
