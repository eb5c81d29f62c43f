//! Turning a committed change set into lines of per-relation change logs.
//!
//! Each relation has one log, named after the relation. A change set adds one
//! line per change to the log of the relation it belongs to, in the order in
//! which the engine reported the changes. Logs only ever grow.

use vstd::prelude::*;
use vstd::string::StringExecFns;

verus! {

/// One entry of a change set: the name of an output relation, a value of it
/// as the engine writes it, and the signed number of times the value appeared
/// (positive) or went away (negative).
#[derive(Debug, PartialEq, Eq)]
pub struct Change {
    pub relation: String,
    pub value: String,
    pub weight: i64,
}

/// A [`Change`] with its texts as sequences of characters.
pub struct ChangeView {
    pub relation: Seq<char>,
    pub value: Seq<char>,
    pub weight: i64,
}

impl DeepView for Change {
    type V = ChangeView;

    open spec fn deep_view(&self) -> ChangeView {
        ChangeView { relation: self.relation@, value: self.value@, weight: self.weight }
    }
}

impl Clone for Change {
    fn clone(&self) -> (copy: Change)
        ensures
            copy.deep_view() == self.deep_view(),
    {
        Change {
            relation: self.relation.clone(),
            value: self.value.clone(),
            weight: self.weight,
        }
    }
}

/// Lines to be added at the end of one relation's change log.
#[derive(Debug, PartialEq, Eq)]
pub struct LogAppend {
    pub relation: String,
    pub file_name: String,
    pub lines: Vec<String>,
}

/// A [`LogAppend`] with its texts as sequences of characters.
pub struct LogAppendView {
    pub relation: Seq<char>,
    pub file_name: Seq<char>,
    pub lines: Seq<Seq<char>>,
}

impl DeepView for LogAppend {
    type V = LogAppendView;

    open spec fn deep_view(&self) -> LogAppendView {
        LogAppendView {
            relation: self.relation@,
            file_name: self.file_name@,
            lines: self.lines.deep_view(),
        }
    }
}

/// The character for a decimal digit.
pub open spec fn digit(d: int) -> char {
    if d == 0 {
        '0'
    } else if d == 1 {
        '1'
    } else if d == 2 {
        '2'
    } else if d == 3 {
        '3'
    } else if d == 4 {
        '4'
    } else if d == 5 {
        '5'
    } else if d == 6 {
        '6'
    } else if d == 7 {
        '7'
    } else if d == 8 {
        '8'
    } else {
        '9'
    }
}

/// A natural number in decimal, without leading zeros.
pub open spec fn decimal(n: nat) -> Seq<char>
    decreases n,
{
    if n < 10 {
        seq![digit(n as int)]
    } else {
        decimal(n / 10).push(digit((n % 10) as int))
    }
}

/// An integer in decimal with its sign written out: `+` for zero and above,
/// `-` below.
pub open spec fn signed_decimal(weight: int) -> Seq<char> {
    if weight < 0 {
        seq!['-'] + decimal((-weight) as nat)
    } else {
        seq!['+'] + decimal(weight as nat)
    }
}

/// The line of a change log for a change of `value` by `weight`: the signed
/// weight, a comma and a space, and the value in round brackets.
pub open spec fn change_line(weight: int, value: Seq<char>) -> Seq<char> {
    signed_decimal(weight) + seq![',', ' ', '('] + value + seq![')']
}

/// The name of the file that holds the change log of the relation called
/// `relation`.
pub open spec fn log_name(relation: Seq<char>) -> Seq<char> {
    relation + seq!['.', 'o', 'u', 't']
}

/// The lines that a change set adds to the log of `relation`: one for each of
/// its changes to that relation, in the order of the change set.
pub open spec fn lines_for(delta: Seq<ChangeView>, relation: Seq<char>) -> Seq<Seq<char>>
    decreases delta.len(),
{
    if delta.len() == 0 {
        Seq::empty()
    } else if delta.last().relation == relation {
        lines_for(delta.drop_last(), relation).push(
            change_line(delta.last().weight as int, delta.last().value),
        )
    } else {
        lines_for(delta.drop_last(), relation)
    }
}

/// The relations that a change set touches, each once, in the order in which
/// the change set first names them.
pub open spec fn touched(delta: Seq<ChangeView>) -> Seq<Seq<char>>
    decreases delta.len(),
{
    if delta.len() == 0 {
        Seq::empty()
    } else if touched(delta.drop_last()).contains(delta.last().relation) {
        touched(delta.drop_last())
    } else {
        touched(delta.drop_last()).push(delta.last().relation)
    }
}

/// What a change set adds to the log of `relation`.
pub open spec fn append_for(delta: Seq<ChangeView>, relation: Seq<char>) -> LogAppendView {
    LogAppendView {
        relation,
        file_name: log_name(relation),
        lines: lines_for(delta, relation),
    }
}

/// What a change set adds to the change logs: for each relation that it
/// touches, the lines for that relation's log.
pub open spec fn appends(delta: Seq<ChangeView>) -> Seq<LogAppendView> {
    Seq::new(touched(delta).len(), |i: int| append_for(delta, touched(delta)[i]))
}

/// What a change log holds: the lines of the file `file`, none where there is
/// no such file yet.
pub open spec fn content(logs: Map<Seq<char>, Seq<Seq<char>>>, file: Seq<char>) -> Seq<Seq<char>> {
    if logs.dom().contains(file) {
        logs[file]
    } else {
        Seq::empty()
    }
}

/// The change logs after `additions` were written out, one after the other:
/// each adds its lines at the end of its file, which is made if it is not
/// there.
pub open spec fn write_out(
    logs: Map<Seq<char>, Seq<Seq<char>>>,
    additions: Seq<LogAppendView>,
) -> Map<Seq<char>, Seq<Seq<char>>>
    decreases additions.len(),
{
    if additions.len() == 0 {
        logs
    } else {
        let before = write_out(logs, additions.drop_last());
        let file = additions.last().file_name;
        before.insert(file, content(before, file) + additions.last().lines)
    }
}

/// The lines that `additions` put into the file `file`, in order.
pub open spec fn added(additions: Seq<LogAppendView>, file: Seq<char>) -> Seq<Seq<char>>
    decreases additions.len(),
{
    if additions.len() == 0 {
        Seq::empty()
    } else if additions.last().file_name == file {
        added(additions.drop_last(), file) + additions.last().lines
    } else {
        added(additions.drop_last(), file)
    }
}

/// The text of one decimal digit.
fn digit_text(d: u64) -> (text: &'static str)
    requires
        d < 10,
    ensures
        text@ == seq![digit(d as int)],
{
    proof {
        reveal_strlit("0");
        reveal_strlit("1");
        reveal_strlit("2");
        reveal_strlit("3");
        reveal_strlit("4");
        reveal_strlit("5");
        reveal_strlit("6");
        reveal_strlit("7");
        reveal_strlit("8");
        reveal_strlit("9");
    }
    let text = if d == 0 {
        "0"
    } else if d == 1 {
        "1"
    } else if d == 2 {
        "2"
    } else if d == 3 {
        "3"
    } else if d == 4 {
        "4"
    } else if d == 5 {
        "5"
    } else if d == 6 {
        "6"
    } else if d == 7 {
        "7"
    } else if d == 8 {
        "8"
    } else {
        "9"
    };
    assert(text@ =~= seq![digit(d as int)]);
    text
}

/// Adds the decimal digits of `n` to the end of `text`.
fn push_decimal(text: &mut String, n: u64)
    ensures
        final(text)@ == old(text)@ + decimal(n as nat),
    decreases n,
{
    if n >= 10 {
        push_decimal(text, n / 10);
    }
    text.append(digit_text(n % 10));
    assert(text@ =~= old(text)@ + decimal(n as nat));
}

/// Writes the line of a change log for a change of `value` by `weight`.
pub fn format_change(weight: i64, value: &str) -> (line: String)
    ensures
        line@ == change_line(weight as int, value@),
{
    proof {
        reveal_strlit("-");
        reveal_strlit("+");
        reveal_strlit(", (");
        reveal_strlit(")");
    }
    let mut line = String::new();
    if weight < 0 {
        line.append("-");
        push_decimal(&mut line, ((-(weight + 1)) as u64) + 1);
    } else {
        line.append("+");
        push_decimal(&mut line, weight as u64);
    }
    line.append(", (");
    line.append(value);
    line.append(")");
    assert(line@ =~= change_line(weight as int, value@));
    line
}

/// Whether the name `relation` is among `seen`.
fn is_among(seen: &Vec<String>, relation: &String) -> (found: bool)
    ensures
        found == seen.deep_view().contains(relation@),
{
    let mut at: usize = 0;
    while at < seen.len()
        invariant
            at <= seen.len(),
            forall|i: int| 0 <= i < at ==> seen.deep_view()[i] != relation@,
        decreases seen.len() - at,
    {
        if seen[at] == *relation {
            assert(seen.deep_view()[at as int] == relation@);
            return true;
        }
        at += 1;
    }
    false
}

/// The names of the relations that a change set touches, in the order in
/// which it first names them.
pub fn touched_relations(delta: &Vec<Change>) -> (relations: Vec<String>)
    ensures
        relations.deep_view() == touched(delta.deep_view()),
{
    let mut relations: Vec<String> = Vec::new();
    let mut at: usize = 0;
    assert(delta.deep_view().take(0) =~= Seq::empty());
    assert(relations.deep_view() =~= Seq::empty());
    while at < delta.len()
        invariant
            at <= delta.len(),
            relations.deep_view() == touched(delta.deep_view().take(at as int)),
        decreases delta.len() - at,
    {
        let ghost seen = relations.deep_view();
        assert(delta.deep_view().take(at + 1).drop_last() =~= delta.deep_view().take(at as int));
        if !is_among(&relations, &delta[at].relation) {
            relations.push(delta[at].relation.clone());
            assert(relations.deep_view() =~= seen.push(delta[at as int].relation@));
        }
        at += 1;
    }
    assert(delta.deep_view().take(at as int) =~= delta.deep_view());
    relations
}

/// The lines that a change set adds to the log of the relation called
/// `relation`.
pub fn relation_lines(delta: &Vec<Change>, relation: &str) -> (lines: Vec<String>)
    ensures
        lines.deep_view() == lines_for(delta.deep_view(), relation@),
{
    let wanted = String::from_str(relation);
    let mut lines: Vec<String> = Vec::new();
    let mut at: usize = 0;
    assert(delta.deep_view().take(0) =~= Seq::empty());
    assert(lines.deep_view() =~= Seq::empty());
    while at < delta.len()
        invariant
            at <= delta.len(),
            wanted@ == relation@,
            lines.deep_view() == lines_for(delta.deep_view().take(at as int), relation@),
        decreases delta.len() - at,
    {
        assert(delta.deep_view().take(at + 1).drop_last() =~= delta.deep_view().take(at as int));
        if delta[at].relation == wanted {
            let ghost before = lines.deep_view();
            let line = format_change(delta[at].weight, delta[at].value.as_str());
            lines.push(line);
            assert(lines.deep_view() =~= before.push(line@));
        }
        at += 1;
    }
    assert(delta.deep_view().take(at as int) =~= delta.deep_view());
    lines
}

/// The name of the file that holds the change log of the relation called
/// `relation`.
pub fn log_file_name(relation: &str) -> (file_name: String)
    ensures
        file_name@ == log_name(relation@),
{
    proof {
        reveal_strlit(".out");
    }
    let mut file_name = String::from_str(relation);
    file_name.append(".out");
    assert(file_name@ =~= log_name(relation@));
    file_name
}

/// Works out what a change set adds to the change logs: for each relation
/// that it touches, in the order in which it first names them, the log's file
/// and the lines to add at its end.
pub fn dump_delta(delta: &Vec<Change>) -> (additions: Vec<LogAppend>)
    ensures
        additions.deep_view() == appends(delta.deep_view()),
{
    let relations = touched_relations(delta);
    let mut additions: Vec<LogAppend> = Vec::new();
    let mut at: usize = 0;
    while at < relations.len()
        invariant
            at <= relations.len(),
            relations.deep_view() == touched(delta.deep_view()),
            additions.len() == at,
            forall|i: int|
                0 <= i < at ==> (#[trigger] additions[i]).deep_view() == append_for(
                    delta.deep_view(),
                    relations.deep_view()[i],
                ),
        decreases relations.len() - at,
    {
        let relation = relations[at].clone();
        assert(relation@ == relations.deep_view()[at as int]);
        let file_name = log_file_name(relation.as_str());
        let lines = relation_lines(delta, relation.as_str());
        additions.push(LogAppend { relation, file_name, lines });
        at += 1;
    }
    assert(additions.deep_view() =~= appends(delta.deep_view()));
    additions
}

/// Writing additions out only ever adds to the end of a log: a file holds
/// afterwards what it held before, followed by the lines that the additions
/// put into it.
pub proof fn lemma_write_out_appends(
    logs: Map<Seq<char>, Seq<Seq<char>>>,
    additions: Seq<LogAppendView>,
    file: Seq<char>,
)
    ensures
        content(write_out(logs, additions), file) == content(logs, file) + added(additions, file),
    decreases additions.len(),
{
    if additions.len() == 0 {
        assert(content(logs, file) + Seq::<Seq<char>>::empty() =~= content(logs, file));
    } else {
        lemma_write_out_appends(logs, additions.drop_last(), file);
        let before = write_out(logs, additions.drop_last());
        if additions.last().file_name == file {
            assert(content(before, file) + additions.last().lines =~= content(logs, file) + (added(
                additions.drop_last(),
                file,
            ) + additions.last().lines));
        }
    }
}

/// Two relations with the same log are the same relation.
pub proof fn lemma_log_names_differ(first: Seq<char>, second: Seq<char>)
    requires
        log_name(first) == log_name(second),
    ensures
        first == second,
{
    assert(log_name(first).len() == first.len() + 4);
    assert(log_name(second).len() == second.len() + 4);
    assert forall|i: int| 0 <= i < first.len() implies first[i] == second[i] by {
        assert(log_name(first)[i] == first[i]);
        assert(log_name(second)[i] == second[i]);
    }
    assert(first =~= second);
}

/// A change set touches a relation exactly if it holds a change to it, which
/// is exactly if it has a line for that relation's log; and it lists no
/// relation twice.
pub proof fn lemma_touched(delta: Seq<ChangeView>, relation: Seq<char>)
    ensures
        touched(delta).contains(relation) <==> exists|i: int|
            0 <= i < delta.len() && (#[trigger] delta[i]).relation == relation,
        touched(delta).contains(relation) <==> lines_for(delta, relation).len() > 0,
        touched(delta).no_duplicates(),
    decreases delta.len(),
{
    if delta.len() > 0 {
        let rest = delta.drop_last();
        let last = delta.last().relation;
        lemma_touched(rest, relation);
        lemma_touched(rest, last);
        if touched(rest).contains(last) {
        } else {
            let grown = touched(rest).push(last);
            assert(grown[grown.len() - 1] == last);
            assert forall|i: int, j: int|
                0 <= i < grown.len() && 0 <= j < grown.len() && i != j implies grown[i]
                != grown[j] by {
                if i < touched(rest).len() {
                    assert(touched(rest).contains(grown[i]));
                }
                if j < touched(rest).len() {
                    assert(touched(rest).contains(grown[j]));
                }
            }
            if touched(rest).contains(relation) {
                let at = choose|at: int| 0 <= at < touched(rest).len() && touched(rest)[at] == relation;
                assert(grown[at] == relation);
            }
        }
        if last == relation {
            assert(delta[delta.len() - 1].relation == relation);
        }
        if exists|i: int| 0 <= i < rest.len() && (#[trigger] rest[i]).relation == relation {
            let at = choose|i: int| 0 <= i < rest.len() && (#[trigger] rest[i]).relation == relation;
            assert(delta[at].relation == relation);
        }
        if exists|i: int| 0 <= i < delta.len() && (#[trigger] delta[i]).relation == relation {
            let at = choose|i: int|
                0 <= i < delta.len() && (#[trigger] delta[i]).relation == relation;
            if at < rest.len() {
                assert(rest[at].relation == relation);
            }
        }
    }
}

/// The lines that the first `count` additions of a change set put into the
/// log of `relation`: all of that relation's lines once its addition is among
/// them, none before.
proof fn lemma_added_so_far(delta: Seq<ChangeView>, relation: Seq<char>, count: int)
    requires
        0 <= count <= touched(delta).len(),
    ensures
        added(appends(delta).take(count), log_name(relation)) == if touched(delta).take(
            count,
        ).contains(relation) {
            lines_for(delta, relation)
        } else {
            Seq::empty()
        },
    decreases count,
{
    let all = appends(delta);
    let names = touched(delta);
    if count > 0 {
        lemma_added_so_far(delta, relation, count - 1);
        lemma_touched(delta, relation);
        let head = all.take(count);
        let newest = names[count - 1];
        let earlier = names.take(count - 1);
        let upto = names.take(count);
        assert(head.drop_last() =~= all.take(count - 1));
        assert(head.last() == append_for(delta, newest));
        assert(upto =~= earlier.push(newest));
        if newest == relation {
            assert(upto[count - 1] == relation);
            if earlier.contains(relation) {
                let at = choose|at: int| 0 <= at < earlier.len() && earlier[at] == relation;
                assert(names[at] == names[count - 1]);
            }
            assert(Seq::<Seq<char>>::empty() + lines_for(delta, relation) =~= lines_for(
                delta,
                relation,
            ));
        } else {
            if log_name(newest) == log_name(relation) {
                lemma_log_names_differ(newest, relation);
            }
            if earlier.contains(relation) {
                let at = choose|at: int| 0 <= at < earlier.len() && earlier[at] == relation;
                assert(upto[at] == relation);
            }
            if upto.contains(relation) {
                let at = choose|at: int| 0 <= at < upto.len() && upto[at] == relation;
                assert(earlier[at] == relation);
            }
        }
    } else {
        assert(all.take(0) =~= Seq::<LogAppendView>::empty());
    }
}

/// Exporting a change set adds to the log of each relation exactly the lines
/// of its changes to that relation, in the order in which the engine
/// reported them, after what the log held before.
pub proof fn lemma_export_appends(
    logs: Map<Seq<char>, Seq<Seq<char>>>,
    delta: Seq<ChangeView>,
    relation: Seq<char>,
)
    ensures
        content(write_out(logs, appends(delta)), log_name(relation)) == content(
            logs,
            log_name(relation),
        ) + lines_for(delta, relation),
{
    let all = appends(delta);
    lemma_write_out_appends(logs, all, log_name(relation));
    lemma_added_so_far(delta, relation, touched(delta).len() as int);
    lemma_touched(delta, relation);
    assert(all.take(touched(delta).len() as int) =~= all);
    assert(touched(delta).take(touched(delta).len() as int) =~= touched(delta));
    if !touched(delta).contains(relation) {
        assert(lines_for(delta, relation) =~= Seq::<Seq<char>>::empty());
    }
}

/// Change logs are append-only: after two change sets were exported one after
/// the other, the log of each relation holds what it held at first, then the
/// lines of the first change set, then those of the second.
pub proof fn lemma_exports_accumulate(
    logs: Map<Seq<char>, Seq<Seq<char>>>,
    first: Seq<ChangeView>,
    second: Seq<ChangeView>,
    relation: Seq<char>,
)
    ensures
        content(
            write_out(write_out(logs, appends(first)), appends(second)),
            log_name(relation),
        ) == content(logs, log_name(relation)) + lines_for(first, relation) + lines_for(
            second,
            relation,
        ),
{
    lemma_export_appends(logs, first, relation);
    lemma_export_appends(write_out(logs, appends(first)), second, relation);
}

} // verus!
