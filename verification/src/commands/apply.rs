//! `prefset apply`: what to print and do for each planned change, and how to
//! relaunch the processes that the changes affect.

use vstd::prelude::*;
use vstd::string::*;

use crate::args::ApplyCommand;
use crate::commands::check::count_pending;
use crate::integrations::{
    applied, current_color, current_text, desired_color, desired_text, key_of, relaunches_of,
    rendered, section_of, value_color, value_color_of, DisplayValue, IntegrationChange,
    PlannedChange,
};
use crate::integrations::defaults::texts;
use crate::util::color::{colorize, colorized};
use crate::util::shell::{quote, quoted};
use crate::util::text::{
    ascii_lower, ascii_lower_char, chars_of, decimal_nat, decimal_usize, lemma_text_lt_order,
    lemma_text_lt_total, same_text, text_less, text_lt, trim, trim_chars,
};

verus! {

/// The path of the `killall(1)` tool that relaunches processes.
pub const KILLALL_CMD: &'static str = "/usr/bin/killall";

/// The indentation of the lines below a section header.
pub const INDENT: &'static str = "    ";

/// A presented value in its color.
pub fn styled_value(value: &DisplayValue, color: bool) -> (r: String)
    ensures
        r@ == colorized(rendered(*value), value_color(*value), color),
{
    let text = value.render();
    colorize(text.as_str(), value_color_of(value), color)
}

/// The line of a change that is already in place.
pub open spec fn unchanged_text(change: PlannedChange, color: bool) -> Seq<char> {
    INDENT@ + colorized("\u{2713}"@, "32"@, color) + " "@ + colorized(
        key_of(change) + " = "@ + desired_text(change),
        "2"@,
        color,
    )
}

/// The line of a change that is to be made.
pub open spec fn changed_text(change: PlannedChange, color: bool) -> Seq<char> {
    INDENT@ + colorized("\u{2192}"@, "33"@, color) + " "@ + key_of(change) + ": "@ + colorized(
        current_text(change),
        current_color(change),
        color,
    ) + " -> "@ + colorized(desired_text(change), desired_color(change), color)
}

/// The line of a change that is written again with `--force`.
pub open spec fn rewritten_text(change: PlannedChange, color: bool) -> Seq<char> {
    INDENT@ + colorized("o"@, "35"@, color) + " "@ + key_of(change) + " = "@ + colorized(
        desired_text(change),
        desired_color(change),
        color,
    )
}

/// The line printed for a change: rewritten under `--force`, else unchanged
/// or changed.
pub open spec fn line_text(change: PlannedChange, force: bool, color: bool) -> Seq<char> {
    if force {
        rewritten_text(change, color)
    } else if applied(change) {
        unchanged_text(change, color)
    } else {
        changed_text(change, color)
    }
}

/// The line printed for a change.
pub fn change_line(change: &PlannedChange, force: bool, color: bool) -> (r: String)
    ensures
        r@ == line_text(*change, force, color),
{
    let desired = change.desired();
    if force {
        let mark = colorize("o", "35", color);
        let value = styled_value(&desired, color);
        let r = String::from_str(INDENT).concat(mark.as_str()).concat(" ").concat(
            change.key(),
        ).concat(" = ").concat(value.as_str());
        r
    } else if change.is_applied() {
        let mark = colorize("\u{2713}", "32", color);
        let property = String::from_str(change.key()).concat(" = ").concat(
            desired.render().as_str(),
        );
        let property = colorize(property.as_str(), "2", color);
        String::from_str(INDENT).concat(mark.as_str()).concat(" ").concat(property.as_str())
    } else {
        let current = change.current();
        let mark = colorize("\u{2192}", "33", color);
        let current = styled_value(&current, color);
        let desired = styled_value(&desired, color);
        String::from_str(INDENT).concat(mark.as_str()).concat(" ").concat(change.key()).concat(
            ": ",
        ).concat(current.as_str()).concat(" -> ").concat(desired.as_str())
    }
}

/// The header of a section.
pub open spec fn section_header(section: Seq<char>, color: bool) -> Seq<char> {
    "["@ + colorized(section, "36"@, color) + "]"@
}

/// The lines printed before the `i`th change: its section header when the
/// section differs from that of the change before, after an empty line
/// unless it is the first.
pub open spec fn header_texts(plan: Seq<PlannedChange>, i: int, color: bool) -> Seq<Seq<char>> {
    if i == 0 {
        seq![section_header(section_of(plan[0]), color)]
    } else if section_of(plan[i]) == section_of(plan[i - 1]) {
        seq![]
    } else {
        seq![Seq::empty(), section_header(section_of(plan[i]), color)]
    }
}

/// What to print and do for one planned change.
#[derive(Debug)]
pub struct Step {
    /// The lines printed before the change's line.
    pub header: Vec<String>,
    /// The line printed for the change.
    pub line: String,
    /// Whether the change counts as made: it is written, or would be
    /// without `--dry-run`.
    pub apply: bool,
    /// Whether the operation that makes the change is shown (`--verbose`).
    pub show_operation: bool,
    /// Whether the change is written to the system now: never under
    /// `--dry-run`.
    pub write: bool,
}

/// Whether a change is made: always under `--force`, else when it is not in
/// place.
pub open spec fn to_apply(change: PlannedChange, force: bool) -> bool {
    force || !applied(change)
}

/// Whether `step` is what to print and do for the `i`th change of `plan`.
pub open spec fn step_of(
    plan: Seq<PlannedChange>,
    i: int,
    cmd: ApplyCommand,
    color: bool,
    step: Step,
) -> bool {
    &&& texts(step.header@) == header_texts(plan, i, color)
    &&& step.line@ == line_text(plan[i], cmd.force, color)
    &&& step.apply == to_apply(plan[i], cmd.force)
    &&& step.show_operation == (to_apply(plan[i], cmd.force) && cmd.verbose)
    &&& step.write == (to_apply(plan[i], cmd.force) && !cmd.dry_run)
}

/// What to print and do for each planned change, in order.
pub fn steps(plan: &Vec<PlannedChange>, cmd: &ApplyCommand, color: bool) -> (r: Vec<Step>)
    ensures
        r@.len() == plan@.len(),
        forall|i: int| 0 <= i < plan@.len() ==> step_of(plan@, i, *cmd, color, #[trigger] r@[i]),
{
    let force = cmd.force;
    let mut r: Vec<Step> = Vec::new();
    let mut previous: Option<String> = None;
    let mut i: usize = 0;
    while i < plan.len()
        invariant
            i <= plan.len(),
            r@.len() == i,
            i == 0 <==> previous is None,
            i > 0 ==> (previous matches Some(p) && p@ == section_of(plan@[i - 1])),
            force == cmd.force,
            forall|j: int| 0 <= j < i ==> step_of(plan@, j, *cmd, color, #[trigger] r@[j]),
        decreases plan.len() - i,
    {
        let change = &plan[i];
        let section = change.section();
        let mut header: Vec<String> = Vec::new();
        let new_section = match &previous {
            None => true,
            Some(p) => !same_text(p.as_str(), section.as_str()),
        };
        if new_section {
            if previous.is_some() {
                header.push(String::new());
            }
            let name = colorize(section.as_str(), "36", color);
            header.push(String::from_str("[").concat(name.as_str()).concat("]"));
        }
        assert(section@ == section_of(plan@[i as int]));
        assert(new_section == (i == 0 || section_of(plan@[i as int - 1]) != section_of(
            plan@[i as int],
        )));
        assert(texts(header@) =~= header_texts(plan@, i as int, color));
        let line = change_line(change, force, color);
        let apply = force || !change.is_applied();
        let show_operation = apply && cmd.verbose;
        let write = apply && !cmd.dry_run;
        r.push(Step { header, line, apply, show_operation, write });
        previous = Some(section);
        i = i + 1;
    }
    r
}

/// The line shown for an operation under `--verbose`.
pub open spec fn operation_text(operation: Seq<char>, color: bool, dry_run: bool) -> Seq<char> {
    INDENT@ + INDENT@ + colorized(
        if dry_run {
            "[SKIPPED]"@
        } else {
            "[RUN]"@
        },
        "2"@,
        color,
    ) + " "@ + colorized(operation, "2"@, color) + "\n"@
}

/// The line shown for an operation under `--verbose`.
pub fn operation_line(operation: &str, color: bool, dry_run: bool) -> (r: String)
    ensures
        r@ == operation_text(operation@, color, dry_run),
{
    let operation = colorize(operation, "2", color);
    let state = if dry_run {
        colorize("[SKIPPED]", "2", color)
    } else {
        colorize("[RUN]", "2", color)
    };
    String::from_str(INDENT).concat(INDENT).concat(state.as_str()).concat(" ").concat(
        operation.as_str(),
    ).concat("\n")
}

/// The summary of a run.
pub open spec fn summary_text(changed: nat, total: nat, dry_run: bool) -> Seq<char> {
    "- updated "@ + decimal_nat(changed) + "/"@ + decimal_nat(total) + " preferences"@ + if dry_run {
        " (dry-run, nothing done)"@
    } else {
        Seq::empty()
    }
}

/// The summary of a run.
pub fn summary_line(changed: usize, total: usize, dry_run: bool) -> (r: String)
    ensures
        r@ == summary_text(changed as nat, total as nat, dry_run),
{
    let r = String::from_str("- updated ").concat(decimal_usize(changed).as_str()).concat(
        "/",
    ).concat(decimal_usize(total).as_str()).concat(" preferences");
    if dry_run {
        r.concat(" (dry-run, nothing done)")
    } else {
        assert(r@ =~= summary_text(changed as nat, total as nat, dry_run));
        r
    }
}

/// How many changes of a plan are made.
pub open spec fn count_applied(plan: Seq<PlannedChange>, force: bool) -> nat
    decreases plan.len(),
{
    if plan.len() == 0 {
        0
    } else {
        count_applied(plan.drop_last(), force) + if to_apply(plan.last(), force) {
            1nat
        } else {
            0nat
        }
    }
}

/// How many changes of a plan are made.
pub fn changed_count(plan: &Vec<PlannedChange>, force: bool) -> (r: usize)
    ensures
        r == count_applied(plan@, force),
{
    let mut n: usize = 0;
    let mut i: usize = 0;
    while i < plan.len()
        invariant
            i <= plan.len(),
            n == count_applied(plan@.subrange(0, i as int), force),
            n <= i,
        decreases plan.len() - i,
    {
        let ghost prefix = plan@.subrange(0, i as int + 1);
        assert(prefix.drop_last() =~= plan@.subrange(0, i as int));
        assert(prefix.last() == plan@[i as int]);
        if force || !plan[i].is_applied() {
            n = n + 1;
        }
        i = i + 1;
    }
    assert(plan@.subrange(0, plan@.len() as int) =~= plan@);
    n
}

/// Whether a list of names is in strictly increasing order (so without
/// duplicates).
pub open spec fn strictly_sorted(names: Seq<Seq<char>>) -> bool {
    forall|i: int, j: int| 0 <= i < j < names.len() ==> text_lt(names[i], names[j])
}

/// Whether a process is relaunched: some change that is made names it.
pub open spec fn relaunched(plan: Seq<PlannedChange>, force: bool, name: Seq<char>) -> bool {
    exists|i: int|
        0 <= i < plan.len() && to_apply(plan[i], force) && (#[trigger] relaunches_of(
            plan[i],
        )).contains(name)
}

fn insert_sorted(names: &mut Vec<String>, name: &str)
    requires
        strictly_sorted(texts(old(names)@)),
    ensures
        strictly_sorted(texts(final(names)@)),
        forall|x: Seq<char>|
            texts(final(names)@).contains(x) <==> (texts(old(names)@).contains(x) || x == name@),
{
    let ghost before = texts(names@);
    let mut p: usize = 0;
    while p < names.len() && text_less(names[p].as_str(), name)
        invariant
            p <= names@.len(),
            texts(names@) == before,
            strictly_sorted(before),
            forall|k: int| 0 <= k < p ==> text_lt(#[trigger] before[k], name@),
        decreases names.len() - p,
    {
        p = p + 1;
    }
    if p < names.len() && same_text(names[p].as_str(), name) {
        assert(before[p as int] == name@);
        return;
    }
    proof {
        if p < before.len() {
            lemma_text_lt_total(before[p as int], name@);
            assert(text_lt(name@, before[p as int]));
        }
    }
    names.insert(p, name.to_owned());
    let ghost after = texts(names@);
    assert(after =~= before.insert(p as int, name@));
    proof {
        assert forall|i: int, j: int| 0 <= i < j < after.len() implies text_lt(after[i], after[j]) by {
            if j < p {
            } else if j == p {
            } else if i < p {
                assert(after[j] == before[j - 1]);
                assert(text_lt(before[i], before[j - 1]));
            } else if i == p {
                assert(after[j] == before[j - 1]);
                if j - 1 > p {
                    assert(text_lt(before[p as int], before[j - 1]));
                    lemma_text_lt_order(name@, before[p as int], before[j - 1]);
                }
            } else {
                assert(after[i] == before[i - 1]);
                assert(after[j] == before[j - 1]);
            }
        }
        assert forall|x: Seq<char>| after.contains(x) <==> (before.contains(x) || x == name@) by {
            if after.contains(x) {
                let k = choose|k: int| 0 <= k < after.len() && after[k] == x;
                if k < p {
                    assert(before[k] == x);
                } else if k > p {
                    assert(before[k - 1] == x);
                }
            }
            if before.contains(x) {
                let k = choose|k: int| 0 <= k < before.len() && before[k] == x;
                if k < p {
                    assert(after[k] == x);
                } else {
                    assert(after[k + 1] == x);
                }
            }
            if x == name@ {
                assert(after[p as int] == x);
            }
        }
    }
}

/// The processes to relaunch after the run: those that the changes that are
/// made name, each once, in increasing order.
pub fn relaunch_list(plan: &Vec<PlannedChange>, force: bool) -> (r: Vec<String>)
    ensures
        strictly_sorted(texts(r@)),
        forall|x: Seq<char>| texts(r@).contains(x) <==> relaunched(plan@, force, x),
{
    let mut names: Vec<String> = Vec::new();
    let mut i: usize = 0;
    while i < plan.len()
        invariant
            i <= plan.len(),
            strictly_sorted(texts(names@)),
            forall|x: Seq<char>|
                texts(names@).contains(x) <==> relaunched(plan@.subrange(0, i as int), force, x),
        decreases plan.len() - i,
    {
        let change = &plan[i];
        if force || !change.is_applied() {
            let processes = change.relaunches();
            let mut k: usize = 0;
            while k < processes.len()
                invariant
                    i < plan.len(),
                    *change == plan@[i as int],
                    to_apply(plan@[i as int], force),
                    texts(processes@) == relaunches_of(plan@[i as int]),
                    k <= processes.len(),
                    strictly_sorted(texts(names@)),
                    forall|x: Seq<char>|
                        texts(names@).contains(x) <==> (relaunched(
                            plan@.subrange(0, i as int),
                            force,
                            x,
                        ) || texts(processes@).subrange(0, k as int).contains(x)),
                decreases processes.len() - k,
            {
                let ghost names_before = texts(names@);
                insert_sorted(&mut names, processes[k].as_str());
                proof {
                    assert forall|x: Seq<char>|
                        texts(processes@).subrange(0, k + 1).contains(x) <==> (texts(
                            processes@,
                        ).subrange(0, k as int).contains(x) || x == processes@[k as int]@) by {
                        let s1 = texts(processes@).subrange(0, k + 1);
                        let s0 = texts(processes@).subrange(0, k as int);
                        if s1.contains(x) {
                            let j = choose|j: int| 0 <= j < s1.len() && s1[j] == x;
                            if j < k {
                                assert(s0[j] == x);
                            }
                        }
                        if s0.contains(x) {
                            let j = choose|j: int| 0 <= j < s0.len() && s0[j] == x;
                            assert(s1[j] == x);
                        }
                        if x == processes@[k as int]@ {
                            assert(s1[k as int] == x);
                        }
                    }
                    assert forall|x: Seq<char>|
                        texts(names@).contains(x) <==> (relaunched(
                            plan@.subrange(0, i as int),
                            force,
                            x,
                        ) || texts(processes@).subrange(0, k + 1).contains(x)) by {
                        assert(texts(names@).contains(x) <==> (names_before.contains(x) || x
                            == processes@[k as int]@));
                        assert(names_before.contains(x) <==> (relaunched(
                            plan@.subrange(0, i as int),
                            force,
                            x,
                        ) || texts(processes@).subrange(0, k as int).contains(x)));
                    }
                }
                k = k + 1;
            }
            proof {
                assert(texts(processes@).subrange(0, k as int) =~= relaunches_of(plan@[i as int]));
            }
        }
        proof {
            let before = plan@.subrange(0, i as int);
            let after = plan@.subrange(0, i as int + 1);
            assert forall|x: Seq<char>|
                relaunched(after, force, x) <==> (relaunched(before, force, x) || (to_apply(
                    plan@[i as int],
                    force,
                ) && relaunches_of(plan@[i as int]).contains(x))) by {
                if relaunched(after, force, x) {
                    let j = choose|j: int|
                        0 <= j < after.len() && to_apply(after[j], force) && (#[trigger] relaunches_of(
                            after[j],
                        )).contains(x);
                    if j < i {
                        assert(before[j] == after[j]);
                    }
                }
                if relaunched(before, force, x) {
                    let j = choose|j: int|
                        0 <= j < before.len() && to_apply(before[j], force) && (#[trigger] relaunches_of(
                            before[j],
                        )).contains(x);
                    assert(after[j] == before[j]);
                }
                if to_apply(plan@[i as int], force) && relaunches_of(plan@[i as int]).contains(x) {
                    assert(after[i as int] == plan@[i as int]);
                }
            }
        }
        i = i + 1;
    }
    assert(plan@.subrange(0, plan@.len() as int) =~= plan@);
    names
}

/// The names joined by `, `.
pub open spec fn joined(names: Seq<Seq<char>>) -> Seq<char>
    decreases names.len(),
{
    if names.len() == 0 {
        seq![]
    } else if names.len() == 1 {
        names[0]
    } else {
        joined(names.drop_last()) + ", "@ + names.last()
    }
}

/// The names joined by `, `.
pub fn join_names(names: &Vec<String>) -> (r: String)
    ensures
        r@ == joined(texts(names@)),
{
    let mut r = String::new();
    let mut i: usize = 0;
    while i < names.len()
        invariant
            i <= names.len(),
            r@ == joined(texts(names@).subrange(0, i as int)),
        decreases names.len() - i,
    {
        let ghost prefix = texts(names@).subrange(0, i as int + 1);
        assert(prefix.drop_last() =~= texts(names@).subrange(0, i as int));
        if i > 0 {
            r.append(", ");
        }
        r.append(names[i].as_str());
        proof {
            if i == 0 {
                assert(r@ =~= prefix[0]);
            }
        }
        i = i + 1;
    }
    assert(texts(names@).subrange(0, names@.len() as int) =~= texts(names@));
    r
}

/// The command that relaunches processes: `killall` with each name quoted.
pub open spec fn relaunch_command_text(processes: Seq<Seq<char>>) -> Seq<char>
    decreases processes.len(),
{
    if processes.len() == 0 {
        "/usr/bin/killall"@
    } else {
        relaunch_command_text(processes.drop_last()) + " "@ + quoted(processes.last())
    }
}

/// The command that relaunches processes.
pub fn relaunch_command(processes: &Vec<String>) -> (r: String)
    ensures
        r@ == relaunch_command_text(texts(processes@)),
{
    let mut r = String::from_str("/usr/bin/killall");
    let mut i: usize = 0;
    while i < processes.len()
        invariant
            i <= processes.len(),
            r@ == relaunch_command_text(texts(processes@).subrange(0, i as int)),
        decreases processes.len() - i,
    {
        let ghost prefix = texts(processes@).subrange(0, i as int + 1);
        assert(prefix.drop_last() =~= texts(processes@).subrange(0, i as int));
        r.append(" ");
        let q = quote(processes[i].as_str());
        r.append(q.as_str());
        i = i + 1;
    }
    assert(texts(processes@).subrange(0, processes@.len() as int) =~= texts(processes@));
    r
}

/// What to do about relaunching processes once the changes are made.
#[derive(Clone, Copy, Debug, PartialEq, Eq, Structural)]
pub enum RelaunchStep {
    /// `--no-relaunch` was given: say so and stop.
    SkipRequested,
    /// Input or output is not a terminal and `--relaunch` was not given.
    SkipNotTerminal,
    /// Show the prompt and take "no" as the answer, under `--dry-run`.
    PromptAssumeNo,
    /// Show the prompt and read the answer.
    Prompt,
    /// Relaunch without asking, under `--relaunch`.
    Proceed,
}

/// What to do about relaunching processes, given the options and whether
/// both input and output are terminals.
pub open spec fn relaunch_step_of(cmd: ApplyCommand, interactive: bool) -> RelaunchStep {
    if cmd.no_relaunch {
        RelaunchStep::SkipRequested
    } else if !interactive && !cmd.relaunch {
        RelaunchStep::SkipNotTerminal
    } else if !cmd.relaunch && cmd.dry_run {
        RelaunchStep::PromptAssumeNo
    } else if !cmd.relaunch {
        RelaunchStep::Prompt
    } else {
        RelaunchStep::Proceed
    }
}

/// What to do about relaunching processes.
pub fn relaunch_step(cmd: &ApplyCommand, interactive: bool) -> (r: RelaunchStep)
    ensures
        r == relaunch_step_of(*cmd, interactive),
{
    if cmd.no_relaunch {
        RelaunchStep::SkipRequested
    } else if !interactive && !cmd.relaunch {
        RelaunchStep::SkipNotTerminal
    } else if !cmd.relaunch && cmd.dry_run {
        RelaunchStep::PromptAssumeNo
    } else if !cmd.relaunch {
        RelaunchStep::Prompt
    } else {
        RelaunchStep::Proceed
    }
}

/// Whether `killall` runs once a relaunch goes ahead (under `--relaunch`, or
/// after a yes to the prompt): never under `--dry-run`.
pub open spec fn runs_relaunch(cmd: ApplyCommand) -> bool {
    !cmd.dry_run
}

/// Whether `killall` runs once a relaunch goes ahead.
pub fn relaunch_runs(cmd: &ApplyCommand) -> (r: bool)
    ensures
        r == runs_relaunch(*cmd),
{
    !cmd.dry_run
}

/// Whether an answer to the prompt is yes: `y` or `yes`, in any case, white
/// space around it aside.
pub open spec fn affirmative(answer: Seq<char>) -> bool {
    let a = trim(answer).map_values(|c: char| ascii_lower(c));
    a == "y"@ || a == "yes"@
}

/// Whether an answer to the prompt is yes.
pub fn is_affirmative(answer: &str) -> (r: bool)
    ensures
        r == affirmative(answer@),
{
    let cs = chars_of(answer);
    let t = trim_chars(&cs);
    let mut lower: Vec<char> = Vec::new();
    let mut i: usize = 0;
    while i < t.len()
        invariant
            i <= t.len(),
            lower@ == t@.subrange(0, i as int).map_values(|c: char| ascii_lower(c)),
        decreases t.len() - i,
    {
        lower.push(ascii_lower_char(t[i]));
        i = i + 1;
        assert(lower@ =~= t@.subrange(0, i as int).map_values(|c: char| ascii_lower(c)));
    }
    assert(t@.subrange(0, t@.len() as int) =~= t@);
    let s = crate::util::text::string_of(lower.as_slice());
    same_text(s.as_str(), "y") || same_text(s.as_str(), "yes")
}

/// The notice that processes need a relaunch.
pub open spec fn relaunch_notice_text(processes: Seq<Seq<char>>, color: bool) -> Seq<char> {
    "\n"@ + colorized("----------------------------------------"@, "2"@, color) + "\n\n"@
        + colorized(decimal_nat(processes.len()), "35"@, color)
        + " process(es) need to relaunch: "@ + joined(processes)
}

/// The notice that processes need a relaunch.
pub fn relaunch_notice(processes: &Vec<String>, color: bool) -> (r: String)
    ensures
        r@ == relaunch_notice_text(texts(processes@), color),
{
    let header = colorize("----------------------------------------", "2", color);
    let count = decimal_usize(processes.len());
    let count = colorize(count.as_str(), "35", color);
    let names = join_names(processes);
    String::from_str("\n").concat(header.as_str()).concat("\n\n").concat(count.as_str()).concat(
        " process(es) need to relaunch: ",
    ).concat(names.as_str())
}

/// The message when `--no-relaunch` is given.
pub fn skip_requested_message(color: bool) -> (r: String)
    ensures
        r@ == "skipping relaunch - `"@ + colorized("--no-relaunch"@, "36"@, color) + "` given"@,
{
    let option = colorize("--no-relaunch", "36", color);
    String::from_str("skipping relaunch - `").concat(option.as_str()).concat("` given")
}

/// The explanation shown before the prompt.
pub open spec fn prompt_text(processes: Seq<Seq<char>>, color: bool) -> Seq<char> {
    "\n> relaunching the services helps these changes take effect.\n> this will not log you out, but affected UI may briefly disappear.\n> will run: "@
        + colorized(relaunch_command_text(processes), "2"@, color) + "\n"@
}

/// The explanation shown before the prompt.
pub fn prompt_message(processes: &Vec<String>, color: bool) -> (r: String)
    ensures
        r@ == prompt_text(texts(processes@), color),
{
    let command = relaunch_command(processes);
    let command = colorize(command.as_str(), "2", color);
    String::from_str(
        "\n> relaunching the services helps these changes take effect.\n> this will not log you out, but affected UI may briefly disappear.\n> will run: ",
    ).concat(command.as_str()).concat("\n")
}

/// The message when `--dry-run` answers the prompt.
pub fn assumed_no_message(color: bool) -> (r: String)
    ensures
        r@ == "(assuming no - `"@ + colorized("--dry-run"@, "36"@, color) + "` is given)"@,
{
    let option = colorize("--dry-run", "36", color);
    String::from_str("(assuming no - `").concat(option.as_str()).concat("` is given)")
}

/// The message when input or output is not a terminal and `--relaunch` is
/// not given.
pub fn not_terminal_message() -> (r: String)
    ensures
        r@ == "skipping relaunch - input/output is not a TTY"@,
{
    String::from_str("skipping relaunch - input/output is not a TTY")
}

/// The question asked before relaunching.
pub fn prompt_question() -> (r: String)
    ensures
        r@ == "relaunch services now? [y/N]: "@,
{
    String::from_str("relaunch services now? [y/N]: ")
}

/// The answer shown in place of input when `--dry-run` answers the prompt.
pub fn assumed_answer() -> (r: String)
    ensures
        r@ == "n"@,
{
    String::from_str("n")
}

/// The message when the prompt is answered with anything but yes.
pub fn declined_message() -> (r: String)
    ensures
        r@ == "not relaunching..."@,
{
    String::from_str("not relaunching...")
}

/// The message once the processes are relaunched.
pub fn relaunched_message(processes: &Vec<String>) -> (r: String)
    ensures
        r@ == "relaunched "@ + joined(texts(processes@)),
{
    String::from_str("relaunched ").concat(join_names(processes).as_str())
}

/// The error when `killall` cannot be run or fails.
pub fn relaunch_failure(processes: &Vec<String>) -> (r: String)
    ensures
        r@ == "could not relaunch "@ + joined(texts(processes@)),
{
    String::from_str("could not relaunch ").concat(join_names(processes).as_str())
}

/// The note that ends the relaunch step, after an empty line.
pub fn closing_note() -> (r: String)
    ensures
        r@ == "\n> note that some changes may not take affect until the user\n> logs out and logs back in."@,
{
    String::from_str(
        "\n> note that some changes may not take affect until the user\n> logs out and logs back in.",
    )
}

/// The last line of a run.
pub fn done_line(color: bool) -> (r: String)
    ensures
        r@ == colorized("\u{2713}"@, "32"@, color) + " done"@,
{
    let check = colorize("\u{2713}", "32", color);
    check.concat(" done")
}


/// `--dry-run` writes nothing: no step of a dry run writes to the system.
pub proof fn lemma_dry_run_writes_nothing(
    plan: Seq<PlannedChange>,
    cmd: ApplyCommand,
    color: bool,
    steps: Seq<Step>,
)
    requires
        cmd.dry_run,
        steps.len() == plan.len(),
        forall|i: int| 0 <= i < plan.len() ==> step_of(plan, i, cmd, color, #[trigger] steps[i]),
    ensures
        forall|i: int| 0 <= i < steps.len() ==> !(#[trigger] steps[i]).write,
{
    assert forall|i: int| 0 <= i < steps.len() implies !(#[trigger] steps[i]).write by {
        assert(step_of(plan, i, cmd, color, steps[i]));
    }
}

/// `check` and `apply` agree: the changes that `apply` makes without
/// `--force` are exactly the ones that `check` reports as not synced.
pub proof fn lemma_check_agrees_with_apply(plan: Seq<PlannedChange>)
    ensures
        count_pending(plan) == count_applied(plan, false),
    decreases plan.len(),
{
    if plan.len() > 0 {
        lemma_check_agrees_with_apply(plan.drop_last());
    }
}

/// The summary never claims more updates than there are preferences, and
/// `--force` rewrites every one of them.
pub proof fn lemma_changed_within_total(plan: Seq<PlannedChange>, force: bool)
    ensures
        count_applied(plan, force) <= plan.len(),
        force ==> count_applied(plan, force) == plan.len(),
    decreases plan.len(),
{
    if plan.len() > 0 {
        lemma_changed_within_total(plan.drop_last(), force);
    }
}

/// `--dry-run` relaunches nothing: it never reads an answer to the prompt,
/// and `killall` never runs.
pub proof fn lemma_dry_run_relaunches_nothing(cmd: ApplyCommand, interactive: bool)
    requires
        cmd.dry_run,
    ensures
        relaunch_step_of(cmd, interactive) != RelaunchStep::Prompt,
        !runs_relaunch(cmd),
{
}

/// A second run changes nothing: once every change of a plan is in place, a
/// run without `--force` writes nothing, counts no update, relaunches no
/// process, and reports `- updated 0/n preferences`; `check` reports every
/// preference synced.
pub proof fn lemma_second_run_changes_nothing(
    plan: Seq<PlannedChange>,
    cmd: ApplyCommand,
    color: bool,
    steps: Seq<Step>,
)
    requires
        !cmd.force,
        forall|i: int| 0 <= i < plan.len() ==> applied(#[trigger] plan[i]),
        steps.len() == plan.len(),
        forall|i: int| 0 <= i < plan.len() ==> step_of(plan, i, cmd, color, #[trigger] steps[i]),
    ensures
        forall|i: int|
            0 <= i < steps.len() ==> !(#[trigger] steps[i]).apply && !steps[i].write
                && !steps[i].show_operation,
        count_applied(plan, cmd.force) == 0,
        count_pending(plan) == 0,
        forall|name: Seq<char>| !relaunched(plan, cmd.force, name),
        forall|names: Seq<Seq<char>>|
            (forall|x: Seq<char>| #[trigger] names.contains(x) <==> relaunched(plan, cmd.force, x))
                ==> names.len() == 0,
        summary_text(count_applied(plan, cmd.force), plan.len(), cmd.dry_run) == "- updated 0/"@
            + decimal_nat(plan.len()) + " preferences"@ + if cmd.dry_run {
            " (dry-run, nothing done)"@
        } else {
            Seq::empty()
        },
{
    assert forall|i: int| 0 <= i < steps.len() implies !(#[trigger] steps[i]).apply
        && !steps[i].write && !steps[i].show_operation by {
        assert(step_of(plan, i, cmd, color, steps[i]));
        assert(applied(plan[i]));
    }
    lemma_nothing_to_apply(plan, cmd.force);
    lemma_check_agrees_with_apply(plan);
    assert forall|name: Seq<char>| !relaunched(plan, cmd.force, name) by {
        if relaunched(plan, cmd.force, name) {
            let i = choose|i: int|
                0 <= i < plan.len() && to_apply(plan[i], cmd.force) && (#[trigger] relaunches_of(
                    plan[i],
                )).contains(name);
            assert(applied(plan[i]));
        }
    }
    assert forall|names: Seq<Seq<char>>|
        (forall|x: Seq<char>| #[trigger] names.contains(x) <==> relaunched(plan, cmd.force, x))
            implies names.len() == 0 by {
        if names.len() > 0 {
            assert(names.contains(names[0]));
        }
    }
    reveal_strlit("0");
    assert(decimal_nat(0) =~= "0"@);
    assert("- updated "@ + "0"@ =~= "- updated 0"@) by {
        reveal_strlit("- updated ");
        reveal_strlit("- updated 0");
    }
    assert("- updated 0"@ + "/"@ =~= "- updated 0/"@) by {
        reveal_strlit("- updated 0");
        reveal_strlit("/");
        reveal_strlit("- updated 0/");
    }
}

/// A plan whose changes are all in place has nothing to apply without
/// `--force`.
proof fn lemma_nothing_to_apply(plan: Seq<PlannedChange>, force: bool)
    requires
        !force,
        forall|i: int| 0 <= i < plan.len() ==> applied(#[trigger] plan[i]),
    ensures
        count_applied(plan, force) == 0,
    decreases plan.len(),
{
    if plan.len() > 0 {
        assert(applied(plan[plan.len() - 1]));
        assert forall|i: int| 0 <= i < plan.drop_last().len() implies applied(
            #[trigger] plan.drop_last()[i],
        ) by {
            assert(applied(plan[i]));
        }
        lemma_nothing_to_apply(plan.drop_last(), force);
    }
}

/// The number of updates a run reports is the number of changes it makes:
/// every change under `--force`, else every change not in place, whatever
/// its integration.
pub proof fn lemma_applied_counts_every_change(plan: Seq<PlannedChange>, force: bool)
    ensures
        count_applied(plan, force) == plan.filter(|c: PlannedChange| force || !applied(c)).len(),
        (exists|i: int| 0 <= i < plan.len() && !applied(#[trigger] plan[i])) ==> count_applied(
            plan,
            force,
        ) > 0,
    decreases plan.len(),
{
    reveal(Seq::filter);
    if plan.len() > 0 {
        let rest = plan.drop_last();
        lemma_applied_counts_every_change(rest, force);
        if exists|i: int| 0 <= i < plan.len() && !applied(#[trigger] plan[i]) {
            let i = choose|i: int| 0 <= i < plan.len() && !applied(#[trigger] plan[i]);
            if i < rest.len() {
                assert(rest[i] == plan[i]);
            }
        }
    }
}

} // verus!
