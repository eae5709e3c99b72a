//! Custom tasks: looking one up by name and turning its command lines into
//! steps.
use vstd::prelude::*;

use crate::case::{lower_of, lowercase};
use crate::config::{task_commands, CustomTaskOptions};
use crate::text::{split_at_spaces, split_spaces, str_eq, views};

verus! {

/// One external command: the program and its arguments.
#[derive(Debug)]
pub struct Step {
    pub program: String,
    pub args: Vec<String>,
}

/// A step as plain values: the program and its arguments.
pub type StepView = (Seq<char>, Seq<Seq<char>>);

impl View for Step {
    type V = StepView;

    open spec fn view(&self) -> StepView {
        (self.program@, views(self.args@))
    }
}

/// The views of a sequence of steps.
pub open spec fn step_views(s: Seq<Step>) -> Seq<StepView> {
    s.map_values(|x: Step| x@)
}

/// The step a command line stands for: its first space-separated piece is
/// the program, the others its arguments.
pub open spec fn line_step(line: Seq<char>) -> StepView {
    (split_spaces(line)[0], split_spaces(line).drop_first())
}

/// The steps of a task, one per command line, in order.
pub open spec fn task_steps(t: CustomTaskOptions) -> Seq<StepView> {
    task_commands(t).map_values(|line: Seq<char>| line_step(line))
}

/// Task `t` answers to `name`, compared without regard to case.
pub open spec fn answers_to(t: CustomTaskOptions, name: Seq<char>) -> bool {
    lower_of(t.name@) == lower_of(name)
}

/// The position of the first task that answers to `name`.
pub open spec fn resolved(tasks: Seq<CustomTaskOptions>, name: Seq<char>) -> Option<int>
    decreases tasks.len(),
{
    if tasks.len() == 0 {
        None
    } else {
        let front = resolved(tasks.drop_last(), name);
        if front is Some {
            front
        } else if answers_to(tasks.last(), name) {
            Some(tasks.len() - 1)
        } else {
            None
        }
    }
}

/// Looks up the task that answers to `name`, without regard to case; the
/// first one in list order where several do.
pub fn resolve(tasks: &Vec<CustomTaskOptions>, name: &str) -> (r: Option<usize>)
    ensures
        match r {
            Some(k) => resolved(tasks@, name@) == Some(k as int) && k < tasks.len(),
            None => resolved(tasks@, name@) is None,
        },
{
    let wanted = lowercase(name);
    let mut found: Option<usize> = None;
    let mut i: usize = 0;
    while i < tasks.len()
        invariant
            i <= tasks.len(),
            wanted@ == lower_of(name@),
            match found {
                Some(k) => k < i && resolved(tasks@.subrange(0, i as int), name@) == Some(k as int),
                None => resolved(tasks@.subrange(0, i as int), name@) is None,
            },
        decreases tasks.len() - i,
    {
        assert(tasks@.subrange(0, i as int + 1).drop_last() =~= tasks@.subrange(0, i as int));
        if found.is_none() {
            let own = lowercase(tasks[i].name.as_str());
            if str_eq(own.as_str(), wanted.as_str()) {
                found = Some(i);
            }
        }
        i = i + 1;
    }
    assert(tasks@.subrange(0, tasks.len() as int) =~= tasks@);
    found
}

/// The step a command line stands for.
pub fn step_of_line(line: &str) -> (r: Step)
    ensures
        r@ == line_step(line@),
{
    let mut pieces = split_at_spaces(line);
    let ghost all = views(pieces@);
    let program = pieces.remove(0);
    assert(views(pieces@) =~= all.drop_first());
    Step { program, args: pieces }
}

/// The steps of a task, one per command line, in order.
pub fn steps_of_task(task: &CustomTaskOptions) -> (r: Vec<Step>)
    ensures
        step_views(r@) == task_steps(*task),
{
    let mut out: Vec<Step> = Vec::new();
    match &task.execute {
        None => {
            assert(step_views(out@) =~= task_steps(*task));
        },
        Some(lines) => {
            let mut i: usize = 0;
            while i < lines.len()
                invariant
                    task.execute == Some(*lines),
                    i <= lines.len(),
                    out.len() == i,
                    forall|k: int| 0 <= k < i ==> #[trigger] out@[k]@ == line_step(lines@[k]@),
                decreases lines.len() - i,
            {
                let s = step_of_line(lines[i].as_str());
                out.push(s);
                i = i + 1;
            }
            assert(step_views(out@) =~= task_steps(*task));
        },
    }
    out
}

/// Appends the steps of `more` to `steps`.
pub fn append_steps(steps: &mut Vec<Step>, more: Vec<Step>)
    ensures
        step_views(final(steps)@) == step_views(old(steps)@) + step_views(more@),
{
    let ghost m = more@;
    let mut more = more;
    steps.append(&mut more);
    assert(step_views(steps@) =~= step_views(old(steps)@) + step_views(m));
}

} // verus!
