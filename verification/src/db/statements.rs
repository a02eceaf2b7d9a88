//! Reading a migration file: the statements it holds, and what kind each of
//! them is.

use vstd::prelude::*;
use vstd::string::*;

use crate::db::migration::{StatementKind, StatementOutcome};
use crate::utils::scan::{
    begins_with, chars_of, contains_text, find, holds, lines, pieces, starts_with_at,
    to_uppercase, trim, trimmed, uppercased, without_return,
};

verus! {

/// Whether a trimmed line says nothing: it is empty, or a comment that
/// begins with two dashes.
pub open spec fn says_nothing(line: Seq<char>) -> bool {
    line.len() == 0 || begins_with(line, "--"@)
}

/// The lines that say something, trimmed and put on one line with single
/// spaces between them.
pub open spec fn cleaned(raw_lines: Seq<Seq<char>>) -> Seq<char>
    decreases raw_lines.len(),
{
    if raw_lines.len() == 0 {
        Seq::empty()
    } else {
        let before = cleaned(raw_lines.drop_last());
        let line = trimmed(raw_lines.last());
        if says_nothing(line) {
            before
        } else if before.len() == 0 {
            line
        } else {
            before + " "@ + line
        }
    }
}

/// The statements of a list of pieces: each piece cleaned, the empty ones
/// left out.
pub open spec fn statements_from(parts: Seq<Seq<char>>) -> Seq<Seq<char>>
    decreases parts.len(),
{
    if parts.len() == 0 {
        Seq::empty()
    } else {
        let before = statements_from(parts.drop_last());
        let statement = cleaned(lines(parts.last()));
        if statement.len() == 0 {
            before
        } else {
            before.push(statement)
        }
    }
}

/// The statements of a migration file: the file is cut at every `;`, and
/// each piece is cleaned of empty lines, comment lines and line breaks.
pub open spec fn migration_statements(migration_sql: Seq<char>) -> Seq<Seq<char>> {
    statements_from(pieces(migration_sql, ';'))
}

/// The characters of each of a list of strings.
pub open spec fn texts(strings: Seq<String>) -> Seq<Seq<char>> {
    strings.map_values(|s: String| s@)
}

/// The kind of a statement, from its text in upper case.
pub open spec fn kind_of_uppercased(upper: Seq<char>) -> StatementKind {
    if begins_with(upper, "USE "@) {
        StatementKind::UseKeyspace
    } else if holds(upper, "CREATE KEYSPACE"@) {
        StatementKind::CreateKeyspace
    } else {
        StatementKind::Other
    }
}

/// How a statement ended that the storage refused with `words`.
pub open spec fn outcome_of_refusal(words: Seq<char>) -> StatementOutcome {
    if holds(words, "already exists"@) {
        StatementOutcome::AlreadyExists
    } else {
        StatementOutcome::Failed
    }
}

/// `text` with `to` in place of every `from`, found from left to right;
/// what was put in is not searched again. An empty `from` is found nowhere.
pub open spec fn replaced(text: Seq<char>, from: Seq<char>, to: Seq<char>) -> Seq<char>
    decreases text.len(),
{
    if text.len() == 0 {
        text
    } else if from.len() > 0 && begins_with(text, from) {
        to + replaced(text.skip(from.len() as int), from, to)
    } else {
        seq![text[0]] + replaced(text.skip(1), from, to)
    }
}

/// A migration file with the configured keyspace in place of the name
/// `aigc_history`, under which the files are written.
pub fn with_keyspace(migration_sql: &str, keyspace: &str) -> (text: String)
    ensures
        text@ == replaced(migration_sql@, "aigc_history"@, keyspace@),
{
    let chars = chars_of(migration_sql);
    let name = chars_of("aigc_history");
    proof {
        reveal_strlit("aigc_history");
    }
    let n = chars.len();
    let ghost all = chars@;
    let mut text = String::new();
    let mut run: usize = 0;
    let mut i: usize = 0;
    proof {
        assert(all.skip(0) =~= all);
        assert(text@ + all.subrange(0, 0) + replaced(all, name@, keyspace@) =~= replaced(
            all,
            name@,
            keyspace@,
        ));
    }
    while i < n
        invariant
            run <= i <= n == chars@.len(),
            chars@ == migration_sql@,
            all == chars@,
            name@ == "aigc_history"@,
            name@.len() == 12,
            replaced(all, name@, keyspace@) == text@ + all.subrange(run as int, i as int)
                + replaced(all.skip(i as int), name@, keyspace@),
        decreases n - i,
    {
        let ghost rest = all.skip(i as int);
        proof {
            assert(all.subrange(i as int, n as int) =~= rest);
            assert(rest[0] == all[i as int]);
        }
        if starts_with_at(&chars, i, n, &name) {
            text.append(migration_sql.substring_char(run, i));
            text.append(keyspace);
            proof {
                assert(rest.skip(name@.len() as int) =~= all.skip(i + name@.len()));
                assert(all.subrange(i + 12, i + 12) =~= Seq::<char>::empty());
            }
            i = i + name.len();
            run = i;
        } else {
            proof {
                assert(rest.skip(1) =~= all.skip(i as int + 1));
                assert(all.subrange(run as int, i as int) + seq![all[i as int]] =~= all.subrange(
                    run as int,
                    i as int + 1,
                ));
            }
            i = i + 1;
        }
    }
    text.append(migration_sql.substring_char(run, n));
    proof {
        assert(all.skip(n as int) =~= Seq::<char>::empty());
    }
    text
}

/// The lines of the range from `from` to `to` that say something, on one
/// line.
fn clean_chunk(text: &str, chars: &Vec<char>, from: usize, to: usize) -> (statement: String)
    requires
        chars@ == text@,
        from <= to <= chars@.len(),
    ensures
        statement@ == cleaned(lines(chars@.subrange(from as int, to as int))),
{
    let dashes = chars_of("--");
    let ghost chunk = chars@.subrange(from as int, to as int);
    let ghost mut found: Seq<Seq<char>> = Seq::empty();
    let mut statement = String::new();
    let mut start = from;
    proof {
        assert(found + lines(chunk) =~= lines(chunk));
    }
    while start < to
        invariant
            from <= start <= to <= chars@.len(),
            chars@ == text@,
            dashes@ == "--"@,
            chunk == chars@.subrange(from as int, to as int),
            lines(chunk) == found + lines(chars@.subrange(start as int, to as int)),
            statement@ == cleaned(found),
        decreases to - start,
    {
        let ghost rest = chars@.subrange(start as int, to as int);
        let end = find(chars, start, to, '\n');
        let line_end = if end < to && end > start && chars[end - 1] == '\r' {
            end - 1
        } else {
            end
        };
        let ghost raw = chars@.subrange(start as int, line_end as int);
        proof {
            assert(rest.take(end - start) =~= chars@.subrange(start as int, end as int));
            if end < to {
                assert(rest.skip(end - start + 1) =~= chars@.subrange(end as int + 1, to as int));
                let whole = chars@.subrange(start as int, end as int);
                if end > start {
                    assert(whole.last() == chars@[end as int - 1]);
                    assert(whole.drop_last() =~= chars@.subrange(start as int, end as int - 1));
                }
                assert(without_return(whole) == raw);
                assert(lines(rest) == seq![raw] + lines(
                    chars@.subrange(end as int + 1, to as int),
                ));
            } else {
                assert(rest.take(end - start) =~= rest);
                assert(lines(rest) == seq![raw]);
                assert(lines(chars@.subrange(to as int, to as int)) =~= Seq::<Seq<char>>::empty());
            }
        }
        let kept = trim(chars, start, line_end);
        let ghost line = chars@.subrange(kept.0 as int, kept.1 as int);
        let ghost before = statement@;
        if kept.0 < kept.1 && !starts_with_at(chars, kept.0, kept.1, &dashes) {
            if !statement.as_str().is_empty() {
                statement.append(" ");
            }
            statement.append(text.substring_char(kept.0, kept.1));
        }
        proof {
            assert(found.push(raw).drop_last() =~= found);
            assert(statement@ == cleaned(found.push(raw)));
            let next = if end < to { end as int + 1 } else { to as int };
            assert(lines(chunk) =~= found.push(raw) + lines(chars@.subrange(next, to as int)));
            found = found.push(raw);
        }
        start = if end < to { end + 1 } else { to };
    }
    proof {
        assert(lines(chars@.subrange(to as int, to as int)) =~= Seq::<Seq<char>>::empty());
        assert(found + Seq::<Seq<char>>::empty() =~= found);
    }
    statement
}

/// The statements of a migration file, in order.
pub fn split_statements(migration_sql: &str) -> (statements: Vec<String>)
    ensures
        texts(statements@) == migration_statements(migration_sql@),
{
    let chars = chars_of(migration_sql);
    let n = chars.len();
    let ghost all = chars@;
    let ghost mut found: Seq<Seq<char>> = Seq::empty();
    let mut statements: Vec<String> = Vec::new();
    let mut start: usize = 0;
    let mut done = false;
    proof {
        assert(all.subrange(0, n as int) =~= all);
        assert(found + pieces(all, ';') =~= pieces(all, ';'));
        assert(texts(statements@) =~= Seq::<Seq<char>>::empty());
    }
    while !done
        invariant
            start <= n == chars@.len(),
            chars@ == migration_sql@,
            all == chars@,
            !done ==> pieces(all, ';') == found + pieces(all.subrange(start as int, n as int), ';'),
            done ==> pieces(all, ';') == found,
            texts(statements@) == statements_from(found),
        decreases (if done { 0int } else { 1int }), n - start,
    {
        let ghost rest = all.subrange(start as int, n as int);
        let end = find(&chars, start, n, ';');
        let ghost part = all.subrange(start as int, end as int);
        let statement = clean_chunk(migration_sql, &chars, start, end);
        let ghost so_far = texts(statements@);
        let ghost words = statement@;
        if !statement.as_str().is_empty() {
            statements.push(statement);
            assert(texts(statements@) =~= so_far.push(words));
        }
        proof {
            assert(rest.take(end - start) =~= part);
            assert(found.push(part).drop_last() =~= found);
            assert(texts(statements@) == statements_from(found.push(part)));
            if end < n {
                assert(rest.skip(end - start + 1) =~= all.subrange(end as int + 1, n as int));
                assert(pieces(rest, ';') == seq![part] + pieces(
                    all.subrange(end as int + 1, n as int),
                    ';',
                ));
                assert(pieces(all, ';') =~= found.push(part) + pieces(
                    all.subrange(end as int + 1, n as int),
                    ';',
                ));
            } else {
                assert(part =~= rest);
                assert(pieces(rest, ';') == seq![rest]);
                assert(pieces(all, ';') =~= found.push(part));
            }
            found = found.push(part);
        }
        if end < n {
            start = end + 1;
        } else {
            done = true;
        }
    }
    statements
}

/// The kind of a statement.
pub fn classify_statement(statement: &str) -> (kind: StatementKind)
    ensures
        kind == kind_of_uppercased(uppercased(statement@)),
{
    let upper = to_uppercase(statement);
    classify_uppercased(upper.as_str())
}

/// The kind of a statement whose text in upper case is `upper`: `USE` at
/// its start selects a keyspace; `CREATE KEYSPACE` anywhere in it creates
/// one.
pub fn classify_uppercased(upper: &str) -> (kind: StatementKind)
    ensures
        kind == kind_of_uppercased(upper@),
{
    let chars = chars_of(upper);
    assert(chars@.subrange(0, chars@.len() as int) =~= chars@);
    if starts_with_at(&chars, 0, chars.len(), &chars_of("USE ")) {
        StatementKind::UseKeyspace
    } else if contains_text(&chars, &chars_of("CREATE KEYSPACE")) {
        StatementKind::CreateKeyspace
    } else {
        StatementKind::Other
    }
}

/// How a statement ended that the storage refused with `words`: an object
/// that exists already is no failure.
pub fn classify_refusal(words: &str) -> (outcome: StatementOutcome)
    ensures
        outcome == outcome_of_refusal(words@),
{
    if contains_text(&chars_of(words), &chars_of("already exists")) {
        StatementOutcome::AlreadyExists
    } else {
        StatementOutcome::Failed
    }
}

} // verus!
