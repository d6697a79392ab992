//! The command line `CreateProcessW` wants: the program and its arguments, each quoted the
//! way the C runtime parses a command line back into arguments.
//!
//! Text here is UTF-16 code units, which is what the command line is made of.
use vstd::prelude::*;

verus! {

/// A space.
pub const SPACE: u16 = 0x20;
/// A tab.
pub const TAB: u16 = 0x09;
/// A double quote.
pub const QUOTE: u16 = 0x22;
/// A backslash.
pub const BACKSLASH: u16 = 0x5c;

/// Whether an argument has to be quoted: it is empty, or holds a space, a tab or a quote.
pub open spec fn needs_quotes(value: Seq<u16>) -> bool {
    value.len() == 0 || exists|i: int|
        0 <= i < value.len() && (#[trigger] value[i] == SPACE || value[i] == TAB || value[i] == QUOTE)
}

/// `n` backslashes.
pub open spec fn backslashes(n: nat) -> Seq<u16> {
    Seq::new(n, |i: int| BACKSLASH)
}

/// The inside of a quoted argument: a quote is escaped, and so is every backslash in the
/// run before it; a run of backslashes at the end is doubled so that it cannot escape the
/// closing quote; any other run stands as it is. `pending` is the run not yet written.
pub open spec fn escaped(value: Seq<u16>, pending: nat) -> Seq<u16>
    decreases value.len(),
{
    if value.len() == 0 {
        backslashes(2 * pending)
    } else if value[0] == BACKSLASH {
        escaped(value.drop_first(), pending + 1)
    } else if value[0] == QUOTE {
        backslashes(2 * pending + 1) + seq![QUOTE] + escaped(value.drop_first(), 0)
    } else {
        backslashes(pending) + seq![value[0]] + escaped(value.drop_first(), 0)
    }
}

/// An argument as it is written on a command line: as it is when nothing in it needs
/// quoting, and otherwise between quotes, escaped.
pub open spec fn quoted(value: Seq<u16>) -> Seq<u16> {
    if needs_quotes(value) {
        seq![QUOTE] + escaped(value, 0) + seq![QUOTE]
    } else {
        value
    }
}

/// Append `n` backslashes.
fn push_backslashes(line: &mut Vec<u16>, n: usize)
    ensures
        final(line)@ == old(line)@ + backslashes(n as nat),
{
    let mut i: usize = 0;
    while i < n
        invariant
            i <= n,
            line@ == old(line)@ + backslashes(i as nat),
        decreases n - i,
    {
        line.push(BACKSLASH);
        assert(line@ =~= old(line)@ + backslashes(i as nat + 1));
        i += 1;
    }
}

/// Append `value`, quoted the way the C runtime will parse it back.
///
/// The rule every Windows program agrees on: wrap in quotes, and backslash-escape any quote
/// and any run of backslashes that immediately precedes one. Getting it wrong is how a path
/// with a space in it becomes two arguments.
pub fn push_quoted(line: &mut Vec<u16>, value: &Vec<u16>)
    requires
        value@.len() < usize::MAX / 2,
    ensures
        final(line)@ == old(line)@ + quoted(value@),
{
    let mut plain = value.len() > 0;
    let mut k: usize = 0;
    while k < value.len()
        invariant
            k <= value.len(),
            plain == (value@.len() > 0 && forall|i: int|
                0 <= i < k ==> !(#[trigger] value@[i] == SPACE || value@[i] == TAB || value@[i] == QUOTE)),
        decreases value.len() - k,
    {
        if value[k] == SPACE || value[k] == TAB || value[k] == QUOTE {
            plain = false;
        }
        k += 1;
    }
    if plain {
        let mut i: usize = 0;
        while i < value.len()
            invariant
                i <= value.len(),
                line@ == old(line)@ + value@.take(i as int),
            decreases value.len() - i,
        {
            line.push(value[i]);
            assert(line@ =~= old(line)@ + value@.take(i as int + 1));
            i += 1;
        }
        assert(value@.take(value.len() as int) =~= value@);
        return;
    }
    line.push(QUOTE);
    let ghost start = line@;
    let mut run: usize = 0;
    let mut i: usize = 0;
    assert(value@.skip(0) =~= value@);
    while i < value.len()
        invariant
            i <= value.len(),
            run <= i,
            value@.len() < usize::MAX / 2,
            start + escaped(value@, 0) == line@ + escaped(value@.skip(i as int), run as nat),
        decreases value.len() - i,
    {
        let unit = value[i];
        let ghost rest = value@.skip(i as int);
        assert(rest.drop_first() =~= value@.skip(i as int + 1));
        if unit == BACKSLASH {
            run += 1;
        } else if unit == QUOTE {
            let ghost before = line@;
            push_backslashes(line, run * 2 + 1);
            line.push(QUOTE);
            assert(before + escaped(rest, run as nat) =~= line@ + escaped(
                value@.skip(i as int + 1),
                0,
            ));
            run = 0;
        } else {
            let ghost before = line@;
            push_backslashes(line, run);
            line.push(unit);
            assert(before + escaped(rest, run as nat) =~= line@ + escaped(
                value@.skip(i as int + 1),
                0,
            ));
            run = 0;
        }
        i += 1;
    }
    assert(value@.skip(i as int) =~= Seq::<u16>::empty());
    push_backslashes(line, run * 2);
    line.push(QUOTE);
    assert(line@ =~= old(line)@ + quoted(value@));
}

/// The command line for a program and its arguments, each quoted, separated by spaces.
pub open spec fn command_line(program: Seq<u16>, args: Seq<Seq<u16>>) -> Seq<u16>
    decreases args.len(),
{
    if args.len() == 0 {
        quoted(program)
    } else {
        command_line(program, args.drop_last()) + seq![SPACE] + quoted(args.last())
    }
}

/// The command line `CreateProcessW` wants: the program, quoted, then the arguments, and a
/// terminating NUL.
pub fn build_command_line(program: &Vec<u16>, args: &Vec<Vec<u16>>) -> (r: Vec<u16>)
    requires
        program@.len() < usize::MAX / 2,
        forall|i: int| 0 <= i < args@.len() ==> (#[trigger] args@[i])@.len() < usize::MAX / 2,
    ensures
        r@ == command_line(program@, args@.map_values(|a: Vec<u16>| a@)).push(0),
{
    let ghost views = args@.map_values(|a: Vec<u16>| a@);
    let mut line: Vec<u16> = Vec::new();
    push_quoted(&mut line, program);
    assert(line@ =~= command_line(program@, views.take(0)));
    let mut i: usize = 0;
    while i < args.len()
        invariant
            i <= args.len(),
            views == args@.map_values(|a: Vec<u16>| a@),
            forall|j: int| 0 <= j < args@.len() ==> (#[trigger] args@[j])@.len() < usize::MAX / 2,
            line@ == command_line(program@, views.take(i as int)),
        decreases args.len() - i,
    {
        line.push(SPACE);
        push_quoted(&mut line, &args[i]);
        assert(views.take(i as int + 1).drop_last() =~= views.take(i as int));
        assert(line@ =~= command_line(program@, views.take(i as int + 1)));
        i += 1;
    }
    assert(views.take(args.len() as int) =~= views);
    line.push(0);
    line
}


// ---- how the C runtime reads it back -----------------------------------------------------

/// One argument read the way the C runtime reads a command line: from `s`, inside quotes or
/// not, with `run` backslashes seen and not yet placed. A run of backslashes stands as it is
/// unless a quote follows it; then every pair is one backslash, and an odd one out makes the
/// quote a character rather than the start or end of a quoted stretch. Inside quotes, two
/// quotes are one quote. An argument ends at a space or a tab outside quotes, or at the end
/// of the line. The result is the argument and how many units it took.
pub open spec fn crt_read(s: Seq<u16>, quoted: bool, run: nat) -> (Seq<u16>, nat)
    decreases s.len(),
{
    if s.len() == 0 {
        (backslashes(run), 0)
    } else if s[0] == BACKSLASH {
        let (a, n) = crt_read(s.drop_first(), quoted, run + 1);
        (a, n + 1)
    } else if s[0] == QUOTE {
        if run % 2 == 1 {
            let (a, n) = crt_read(s.drop_first(), quoted, 0);
            (backslashes(run / 2) + seq![QUOTE] + a, n + 1)
        } else if quoted && s.len() > 1 && s[1] == QUOTE {
            let (a, n) = crt_read(s.skip(2), quoted, 0);
            (backslashes(run / 2) + seq![QUOTE] + a, n + 2)
        } else {
            let (a, n) = crt_read(s.drop_first(), !quoted, 0);
            (backslashes(run / 2) + a, n + 1)
        }
    } else if !quoted && (s[0] == SPACE || s[0] == TAB) {
        (backslashes(run), 0)
    } else {
        let (a, n) = crt_read(s.drop_first(), quoted, 0);
        (backslashes(run) + seq![s[0]] + a, n + 1)
    }
}

/// The arguments the C runtime reads out of `s`: spaces and tabs between them are skipped,
/// and each is read up to the space or tab that ends it.
pub open spec fn crt_args(s: Seq<u16>) -> Seq<Seq<u16>>
    decreases s.len(),
{
    if s.len() == 0 {
        Seq::empty()
    } else if s[0] == SPACE || s[0] == TAB {
        crt_args(s.drop_first())
    } else {
        let (a, n) = crt_read(s, false, 0);
        if 0 < n <= s.len() {
            seq![a] + crt_args(s.skip(n as int))
        } else {
            seq![a]
        }
    }
}

/// The arguments as the command line writes them after the program: each one after a space,
/// quoted.
pub open spec fn args_text(args: Seq<Seq<u16>>) -> Seq<u16>
    decreases args.len(),
{
    if args.len() == 0 {
        Seq::empty()
    } else {
        seq![SPACE] + quoted(args[0]) + args_text(args.drop_first())
    }
}

/// Whether what follows an argument ends it: the end of the line, or a space.
pub open spec fn ends_argument(tail: Seq<u16>) -> bool {
    tail.len() == 0 || tail[0] == SPACE
}

/// A run of backslashes is read by counting it.
proof fn lemma_read_run(k: nat, s: Seq<u16>, quoted: bool, run: nat)
    ensures
        crt_read(backslashes(k) + s, quoted, run) == ({
            let (a, n) = crt_read(s, quoted, run + k);
            (a, n + k)
        }),
    decreases k,
{
    if k > 0 {
        let t = backslashes(k) + s;
        assert(t[0] == BACKSLASH);
        assert(t.drop_first() =~= backslashes((k - 1) as nat) + s);
        lemma_read_run((k - 1) as nat, s, quoted, run + 1);
    } else {
        assert(backslashes(0) + s =~= s);
    }
}

/// Inside quotes, an escaped value and the closing quote read back as the value, after the
/// `pending` backslashes the escaping was still holding.
proof fn lemma_read_escaped(value: Seq<u16>, pending: nat, tail: Seq<u16>)
    requires
        ends_argument(tail),
    ensures
        crt_read(escaped(value, pending) + seq![QUOTE] + tail, true, 0) == (
            backslashes(pending) + value,
            escaped(value, pending).len() + 1,
        ),
    decreases value.len(),
{
    if value.len() == 0 {
        let s = seq![QUOTE] + tail;
        assert(escaped(value, pending) + seq![QUOTE] + tail =~= backslashes(2 * pending) + s);
        lemma_read_run(2 * pending, s, true, 0);
        assert(s[0] == QUOTE);
        assert(s.drop_first() =~= tail);
        assert((2 * pending) % 2 == 0);
        assert((2 * pending) / 2 == pending);
        assert(!(s.len() > 1 && s[1] == QUOTE));
        assert(crt_read(tail, false, 0) == (backslashes(0), 0nat));
        assert(backslashes(pending) + backslashes(0) =~= backslashes(pending));
        assert(backslashes(pending) + value =~= backslashes(pending));
    } else if value[0] == BACKSLASH {
        let rest = value.drop_first();
        lemma_read_escaped(rest, pending + 1, tail);
        assert(backslashes(pending + 1) + rest =~= backslashes(pending) + value);
    } else if value[0] == QUOTE {
        let rest = value.drop_first();
        let inner = escaped(rest, 0) + seq![QUOTE] + tail;
        let s = seq![QUOTE] + inner;
        assert(escaped(value, pending) + seq![QUOTE] + tail =~= backslashes(2 * pending + 1) + s);
        lemma_read_run(2 * pending + 1, s, true, 0);
        assert(s[0] == QUOTE);
        assert(s.drop_first() =~= inner);
        assert((2 * pending + 1) % 2 == 1);
        assert((2 * pending + 1) / 2 == pending);
        lemma_read_escaped(rest, 0, tail);
        assert(backslashes(0) + rest =~= rest);
        assert(backslashes(pending) + seq![QUOTE] + rest =~= backslashes(pending) + value);
    } else {
        let c = value[0];
        let rest = value.drop_first();
        let inner = escaped(rest, 0) + seq![QUOTE] + tail;
        let s = seq![c] + inner;
        assert(escaped(value, pending) + seq![QUOTE] + tail =~= backslashes(pending) + s);
        lemma_read_run(pending, s, true, 0);
        assert(s[0] == c);
        assert(s.drop_first() =~= inner);
        lemma_read_escaped(rest, 0, tail);
        assert(backslashes(0) + rest =~= rest);
        assert(backslashes(pending) + seq![c] + rest =~= backslashes(pending) + value);
    }
}

/// Outside quotes, a value with no space, tab or quote in it reads back as itself, after
/// the `run` backslashes already seen.
proof fn lemma_read_plain(value: Seq<u16>, run: nat, tail: Seq<u16>)
    requires
        ends_argument(tail),
        forall|i: int| 0 <= i < value.len() ==> !(#[trigger] value[i] == SPACE || value[i] == TAB || value[i] == QUOTE),
    ensures
        crt_read(value + tail, false, run) == (backslashes(run) + value, value.len()),
    decreases value.len(),
{
    let s = value + tail;
    if value.len() == 0 {
        assert(s =~= tail);
        assert(backslashes(run) + value =~= backslashes(run));
    } else {
        let rest = value.drop_first();
        assert(s[0] == value[0]);
        assert(s.drop_first() =~= rest + tail);
        assert forall|i: int| 0 <= i < rest.len() implies !(#[trigger] rest[i] == SPACE || rest[i] == TAB || rest[i] == QUOTE) by {
            assert(rest[i] == value[i + 1]);
        }
        if value[0] == BACKSLASH {
            lemma_read_plain(rest, run + 1, tail);
            assert(backslashes(run + 1) + rest =~= backslashes(run) + value);
        } else {
            assert(!(value[0] == SPACE || value[0] == TAB || value[0] == QUOTE));
            lemma_read_plain(rest, 0, tail);
            assert(backslashes(0) + rest =~= rest);
            assert(backslashes(run) + seq![value[0]] + rest =~= backslashes(run) + value);
        }
    }
}

/// An argument as the command line writes it reads back as the argument, and takes all of
/// what was written for it.
proof fn lemma_read_quoted(value: Seq<u16>, tail: Seq<u16>)
    requires
        ends_argument(tail),
    ensures
        crt_read(quoted(value) + tail, false, 0) == (value, quoted(value).len()),
{
    if needs_quotes(value) {
        let inner = escaped(value, 0) + seq![QUOTE] + tail;
        let s = seq![QUOTE] + inner;
        assert(quoted(value) + tail =~= s);
        assert(s[0] == QUOTE);
        assert(s.drop_first() =~= inner);
        lemma_read_escaped(value, 0, tail);
        assert(backslashes(0) + value =~= value);
    } else {
        assert forall|i: int| 0 <= i < value.len() implies !(#[trigger] value[i] == SPACE || value[i] == TAB || value[i] == QUOTE) by {
            if value[i] == SPACE || value[i] == TAB || value[i] == QUOTE {
                assert(needs_quotes(value));
            }
        }
        lemma_read_plain(value, 0, tail);
        assert(backslashes(0) + value =~= value);
    }
}

/// The arguments written after the program read back, one by one, as the arguments.
proof fn lemma_args_read_back(args: Seq<Seq<u16>>)
    ensures
        crt_args(args_text(args)) == args,
    decreases args.len(),
{
    if args.len() > 0 {
        let a = args[0];
        let rest_text = args_text(args.drop_first());
        let s = seq![SPACE] + quoted(a) + rest_text;
        let t = quoted(a) + rest_text;
        assert(s[0] == SPACE);
        assert(s.drop_first() =~= t);
        assert(ends_argument(rest_text)) by {
            if args.drop_first().len() > 0 {
                assert(rest_text[0] == SPACE);
            }
        }
        lemma_read_quoted(a, rest_text);
        assert(quoted(a).len() > 0) by {
            if !needs_quotes(a) {
                assert(a.len() > 0);
            }
        }
        assert(!(t[0] == SPACE || t[0] == TAB)) by {
            if needs_quotes(a) {
                assert(t[0] == QUOTE);
            } else {
                assert(t[0] == a[0]);
                if a[0] == SPACE || a[0] == TAB {
                    assert(needs_quotes(a));
                }
            }
        }
        assert(t.skip(quoted(a).len() as int) =~= rest_text);
        lemma_args_read_back(args.drop_first());
        assert(args_text(args) == s);
        assert(crt_args(s) == crt_args(t));
        assert(crt_read(t, false, 0) == (a, quoted(a).len()));
        assert(crt_args(t) == seq![a] + crt_args(rest_text));
        assert(seq![a] + args.drop_first() =~= args);
    } else {
        assert(args_text(args) =~= Seq::<u16>::empty());
        assert(args =~= Seq::<Seq<u16>>::empty());
    }
}

/// The arguments' text ends with the last argument.
proof fn lemma_args_text_last(args: Seq<Seq<u16>>)
    requires
        args.len() > 0,
    ensures
        args_text(args) == args_text(args.drop_last()) + seq![SPACE] + quoted(args.last()),
    decreases args.len(),
{
    if args.len() == 1 {
        assert(args.drop_last() =~= Seq::<Seq<u16>>::empty());
        assert(args.drop_first() =~= Seq::<Seq<u16>>::empty());
        assert(args_text(args) =~= seq![SPACE] + quoted(args[0]));
    } else {
        let rest = args.drop_first();
        lemma_args_text_last(rest);
        assert(rest.drop_last() =~= args.drop_last().drop_first());
        assert(rest.last() == args.last());
        assert(args.drop_last()[0] == args[0]);
        assert(args_text(args) =~= args_text(args.drop_last()) + seq![SPACE] + quoted(args.last()));
    }
}

/// A command line is the program, quoted, and then the arguments' text.
proof fn lemma_command_line_splits(program: Seq<u16>, args: Seq<Seq<u16>>)
    ensures
        command_line(program, args) == quoted(program) + args_text(args),
    decreases args.len(),
{
    if args.len() == 0 {
        assert(quoted(program) + args_text(args) =~= quoted(program));
    } else {
        lemma_command_line_splits(program, args.drop_last());
        lemma_args_text_last(args);
        assert(command_line(program, args) =~= quoted(program) + args_text(args));
    }
}

/// What follows the program on a command line reads back, by the C runtime's rules, as
/// exactly the arguments it was built from: a space inside one does not split it, a quote
/// inside one does not end it, and a backslash before either or at the end stands as the
/// character it was.
pub proof fn lemma_command_line_reads_back(program: Seq<u16>, args: Seq<Seq<u16>>)
    ensures
        crt_args(command_line(program, args).skip(quoted(program).len() as int)) == args,
{
    lemma_command_line_splits(program, args);
    assert(command_line(program, args).skip(quoted(program).len() as int) =~= args_text(args));
    lemma_args_read_back(args);
}

/// One quoted argument, after the space that separates it from what comes before, reads
/// back by the C runtime's rules as exactly one argument, equal to the value, whatever the
/// value holds: spaces, tabs, quotes and runs of backslashes included.
pub proof fn lemma_quoted_argument_reads_back(value: Seq<u16>)
    ensures
        crt_args(seq![SPACE] + quoted(value)) == seq![value],
{
    let args = seq![value];
    lemma_args_read_back(args);
    assert(args.drop_first() =~= Seq::<Seq<u16>>::empty());
    assert(args[0] == value);
    assert(args_text(args.drop_first()) == Seq::<u16>::empty());
    assert(args_text(args) == seq![SPACE] + quoted(value) + Seq::<u16>::empty());
    assert(seq![SPACE] + quoted(value) + Seq::<u16>::empty() =~= seq![SPACE] + quoted(value));
}

} // verus!
