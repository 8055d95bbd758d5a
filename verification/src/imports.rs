//! Inlining of imported files.
use vstd::prelude::*;

use crate::compiler::texts;
use crate::names::NameSet;
use crate::text::{
    is_white_space, option_text, push_char, str_eq, text_between, to_chars, trim_between, trimmed,
    white_space,
};

verus! {

/// The position of the first `c` in a text at or after `i`, or the text's
/// length.
pub open spec fn position_from(s: Seq<char>, c: char, i: int) -> int
    decreases s.len() - i,
{
    if i < 0 || i >= s.len() || s[i] == c {
        i
    } else {
        position_from(s, c, i + 1)
    }
}

/// A line without the carriage return at its end.
pub open spec fn without_return(s: Seq<char>) -> Seq<char> {
    if s.len() > 0 && s.last() == '\r' {
        s.drop_last()
    } else {
        s
    }
}

/// The lines of a text. A line ends in a line feed, which a carriage return may
/// precede; the last line needs no ending.
pub open spec fn lines(s: Seq<char>) -> Seq<Seq<char>>
    decreases s.len(),
{
    let n = position_from(s, '\n', 0);
    if s.len() == 0 {
        Seq::empty()
    } else if n < 0 || n >= s.len() {
        seq![s]
    } else {
        seq![without_return(s.take(n))] + lines(s.skip(n + 1))
    }
}

/// A text without the byte order mark at its start.
pub open spec fn without_mark(s: Seq<char>) -> Seq<char> {
    if s.len() > 0 && s[0] == '\u{FEFF}' {
        s.skip(1)
    } else {
        s
    }
}

/// The path in what follows the word `import`: quoted, and with nothing but
/// white space and at most one semicolon after it.
pub open spec fn quoted_path(rest: Seq<char>) -> Option<Seq<char>> {
    if rest.len() > 0 && (rest[0] == '"' || rest[0] == '\'') {
        let body = rest.skip(1);
        let end = position_from(body, rest[0], 0);
        if end >= body.len() {
            None
        } else {
            let after = trimmed(body.skip(end + 1));
            if after.len() == 0 || after == ";"@ {
                Some(body.take(end))
            } else {
                None
            }
        }
    } else {
        None
    }
}

/// The path that a line imports, if it is an import.
pub open spec fn import_path(line: Seq<char>) -> Option<Seq<char>> {
    if line.len() > 6 && line.take(6) == "import"@ && white_space(line[6]) {
        quoted_path(trimmed(line.skip(6)))
    } else {
        None
    }
}

/// The text that stands for lines `i` and following once their imports are
/// replaced by the files' contents, and the paths that have been imported by
/// then. A path is imported once; after that, and where there is no such file,
/// the line becomes empty.
pub open spec fn inline_lines(
    files: Map<Seq<char>, Seq<char>>,
    text: Seq<Seq<char>>,
    i: int,
    visited: Set<Seq<char>>,
) -> (Seq<char>, Set<Seq<char>>)
    decreases files.dom().difference(visited).len(), text.len() - i,
    when files.dom().finite()
    via inlining_ends
{
    if i < 0 || i >= text.len() {
        (Seq::empty(), visited)
    } else {
        match import_path(trimmed(text[i])) {
            None => {
                let (rest, all) = inline_lines(files, text, i + 1, visited);
                (text[i] + "\n"@ + rest, all)
            },
            Some(path) => if visited.contains(path) || !files.dom().contains(path) {
                let known = visited.insert(path);
                let (rest, all) = inline_lines(files, text, i + 1, known);
                ("\n"@ + rest, all)
            } else {
                let known = visited.insert(path);
                let (part, more) = inline_lines(files, lines(without_mark(files[path])), 0, known);
                let (rest, all) = inline_lines(files, text, i + 1, known.union(more));
                (part + "\n"@ + rest, all)
            },
        }
    }
}

#[via_fn]
proof fn inlining_ends(
    files: Map<Seq<char>, Seq<char>>,
    text: Seq<Seq<char>>,
    i: int,
    visited: Set<Seq<char>>,
) {
    if 0 <= i < text.len() {
        if let Some(path) = import_path(trimmed(text[i])) {
            let known = visited.insert(path);
            lemma_fewer_left(files.dom(), visited, known);
            if !visited.contains(path) && files.dom().contains(path) {
                lemma_one_fewer_left(files.dom(), visited, path);
                assert forall|more: Set<Seq<char>>|
                    files.dom().difference(#[trigger] known.union(more)).len()
                        <= files.dom().difference(visited).len() by {
                    lemma_fewer_left(files.dom(), visited, known.union(more));
                }
            }
        }
    }
}

/// A source text with its imports replaced.
pub open spec fn inlined(files: Map<Seq<char>, Seq<char>>, source: Seq<char>) -> Seq<char> {
    inline_lines(files, lines(without_mark(source)), 0, Set::empty()).0
}

/// The paths that are imported in the course of that.
pub open spec fn imported(files: Map<Seq<char>, Seq<char>>, source: Seq<char>) -> Set<Seq<char>> {
    inline_lines(files, lines(without_mark(source)), 0, Set::empty()).1
}

proof fn lemma_fewer_left(all: Set<Seq<char>>, before: Set<Seq<char>>, after: Set<Seq<char>>)
    requires
        all.finite(),
        before.subset_of(after),
    ensures
        all.difference(after).len() <= all.difference(before).len(),
{
    vstd::set_lib::lemma_len_subset(all.difference(after), all.difference(before));
}

proof fn lemma_one_fewer_left(all: Set<Seq<char>>, before: Set<Seq<char>>, path: Seq<char>)
    requires
        all.finite(),
        all.contains(path),
        !before.contains(path),
    ensures
        all.difference(before.insert(path)).len() < all.difference(before).len(),
{
    assert(all.difference(before.insert(path)) =~= all.difference(before).remove(path));
}

/// The contents of a file, if there is one.
pub open spec fn file_at(files: Map<Seq<char>, Seq<char>>, path: Seq<char>) -> Option<Seq<char>> {
    if files.dom().contains(path) {
        Some(files[path])
    } else {
        None
    }
}

/// Whether a resolver may answer a path in that way.
pub open spec fn may_answer<F: Fn(&str) -> Option<String>>(
    resolver: F,
    path: Seq<char>,
    contents: Option<Seq<char>>,
) -> bool {
    exists|p: &str, r: Option<String>| #[trigger]
        call_ensures(resolver, (p,), r) && p@ == path && option_text(r) == contents
}

/// Whether a resolver finds only files of the given paths.
pub open spec fn finds_only<F: Fn(&str) -> Option<String>>(
    resolver: F,
    paths: Set<Seq<char>>,
) -> bool {
    forall|p: &str, r: Option<String>| #[trigger]
        call_ensures(resolver, (p,), r) && r is Some ==> paths.contains(p@)
}

/// Whether a resolver reads the given files.
pub open spec fn reads<F: Fn(&str) -> Option<String>>(
    resolver: F,
    files: Map<Seq<char>, Seq<char>>,
) -> bool {
    forall|p: &str, r: Option<String>| #[trigger]
        call_ensures(resolver, (p,), r) ==> option_text(r) == file_at(files, p@)
}

/// Strip the byte order mark at the start of a text.
fn strip_bom(s: String) -> (r: String)
    ensures
        r@ == without_mark(s@),
{
    let chars = to_chars(s.as_str());
    if chars.len() > 0 && chars[0] == '\u{FEFF}' {
        assert(chars@.subrange(1, chars@.len() as int) =~= s@.skip(1));
        text_between(&chars, 1, chars.len())
    } else {
        s
    }
}

fn find_from(chars: &Vec<char>, c: char, from: usize, to: usize) -> (n: usize)
    requires
        from <= to <= chars@.len(),
    ensures
        from <= n <= to,
        n - from == position_from(chars@.subrange(from as int, to as int), c, 0),
{
    let ghost part = chars@.subrange(from as int, to as int);
    let mut i: usize = from;
    while i < to && chars[i] != c
        invariant
            from <= i <= to <= chars@.len(),
            part == chars@.subrange(from as int, to as int),
            position_from(part, c, i - from) == position_from(part, c, 0),
        decreases to - i,
    {
        i += 1;
    }
    i
}

/// The lines of a text.
fn split_lines(source: &str) -> (r: Vec<String>)
    ensures
        texts(r@) == lines(source@),
{
    let chars = to_chars(source);
    let len: usize = chars.len();
    let mut out: Vec<String> = Vec::new();
    let mut start: usize = 0;
    assert(chars@.skip(0) =~= chars@);
    assert(texts(out@) + lines(chars@.skip(0)) =~= lines(source@));
    while start < len
        invariant
            0 <= start <= len == chars@.len(),
            texts(out@) + lines(chars@.skip(start as int)) == lines(source@),
        decreases len - start,
    {
        let ghost before = out@;
        let ghost rest = chars@.skip(start as int);
        assert(rest =~= chars@.subrange(start as int, len as int));
        let end: usize = find_from(&chars, '\n', start, len);
        if end == len {
            out.push(text_between(&chars, start, len));
            assert(texts(out@) =~= texts(before) + seq![rest]);
            assert(lines(chars@.skip(len as int)) =~= Seq::empty());
            assert(texts(out@) + lines(chars@.skip(len as int)) =~= texts(before) + lines(rest));
            start = len;
        } else {
            let stop: usize = if end > start && chars[end - 1] == '\r' {
                end - 1
            } else {
                end
            };
            assert(chars@.subrange(start as int, stop as int) =~= without_return(
                rest.take(end - start),
            ));
            out.push(text_between(&chars, start, stop));
            assert(chars@.skip(end + 1) =~= rest.skip(end - start + 1));
            assert(texts(out@) =~= texts(before) + seq![without_return(rest.take(end - start))]);
            assert(texts(out@) + lines(rest.skip(end - start + 1)) =~= texts(before) + lines(
                rest,
            ));
            start = end + 1;
        }
    }
    assert(chars@.skip(len as int) =~= Seq::empty());
    assert(texts(out@) + Seq::<Seq<char>>::empty() =~= texts(out@));
    out
}

/// Parse a line like `import "./cards.logic"` or `import './cards.logic'`.
/// Returns the path, or `None` if the line is not an import.
pub fn parse_import_line(line: &str) -> (r: Option<String>)
    ensures
        option_text(r) == import_path(line@),
{
    let chars = to_chars(line);
    let len: usize = chars.len();
    proof {
        reveal_strlit("import");
        reveal_strlit(";");
        assert(";"@.len() == 1 && ";"@[0] == ';');
    }
    if len <= 6 || !str_eq(text_between(&chars, 0, 6).as_str(), "import") || !is_white_space(
        chars[6],
    ) {
        assert(len > 6 ==> line@.take(6) =~= chars@.subrange(0, 6));
        return None;
    }
    assert(line@.take(6) =~= chars@.subrange(0, 6));
    assert(line@.skip(6) =~= chars@.subrange(6, len as int));
    let (start, stop) = trim_between(&chars, 6, len);
    let ghost rest = chars@.subrange(start as int, stop as int);
    if start == stop {
        return None;
    }
    let quote: char = chars[start];
    if quote != '"' && quote != '\'' {
        return None;
    }
    let ghost body = chars@.subrange(start + 1, stop as int);
    assert(rest.skip(1) =~= body);
    let end: usize = find_from(&chars, quote, start + 1, stop);
    if end == stop {
        return None;
    }
    assert(body.skip(end - start) =~= chars@.subrange(end + 1, stop as int));
    let (a, b) = trim_between(&chars, end + 1, stop);
    let ghost after = chars@.subrange(a as int, b as int);
    if a != b && !(b - a == 1 && chars[a] == ';') {
        assert(after != ";"@) by {
            if after == ";"@ {
                assert(after[0] == chars@[a as int]);
            }
        }
        return None;
    }
    assert(a != b ==> after =~= ";"@);
    assert(body.take(end - start - 1) =~= chars@.subrange(start + 1, end as int));
    Some(text_between(&chars, start + 1, end))
}

/// Whether a table of files holds, for the paths that were asked for in between,
/// what was found there.
spec fn agrees(
    files: Map<Seq<char>, Seq<char>>,
    found: Map<Seq<char>, Seq<char>>,
    before: Set<Seq<char>>,
    after: Set<Seq<char>>,
) -> bool {
    forall|p: Seq<char>| #[trigger]
        after.contains(p) && !before.contains(p) ==> file_at(files, p) == file_at(found, p)
}

/// Inline the imports of a source text. `paths` bounds the files that there
/// are, and `found` is what the resolver has found so far.
fn resolve_imports_inner<F: Fn(&str) -> Option<String>>(
    source: &str,
    resolver: &F,
    visited: &mut NameSet,
    found: &mut Ghost<Map<Seq<char>, Seq<char>>>,
    paths: Ghost<Set<Seq<char>>>,
) -> (output: String)
    requires
        forall|p: &str| #[trigger] call_requires(*resolver, (p,)),
        finds_only(*resolver, paths@),
        paths@.finite(),
        old(found)@.dom().finite(),
        old(found)@.dom().subset_of(old(visited)@),
    ensures
        old(visited)@.subset_of(final(visited)@),
        final(found)@.dom().finite(),
        final(found)@.dom().subset_of(final(visited)@),
        agrees(final(found)@, old(found)@, Set::empty(), old(visited)@),
        forall|p: Seq<char>| #[trigger]
            final(visited)@.contains(p) && !old(visited)@.contains(p) ==> may_answer(
                *resolver,
                p,
                file_at(final(found)@, p),
            ),
        forall|files: Map<Seq<char>, Seq<char>>|
            files.dom().finite() && agrees(files, final(found)@, old(visited)@, final(visited)@)
                ==> (#[trigger] inline_lines(files, lines(source@), 0, old(visited)@)) == (
                output@,
                final(visited)@,
            ),
    decreases paths@.difference(old(visited)@).len(),
{
    let text = split_lines(source);
    let ghost all_lines = texts(text@);
    let ghost first = visited@;
    let ghost start = found@;
    let mut output = String::new();
    let mut i: usize = 0;
    proof {
        reveal_strlit("\n");
    }
    while i < text.len()
        invariant
            0 <= i <= text@.len(),
            "\n"@ =~= seq!['\n'],
            all_lines == texts(text@),
            forall|p: &str| #[trigger] call_requires(*resolver, (p,)),
            finds_only(*resolver, paths@),
            paths@.finite(),
            first == old(visited)@,
            start == old(found)@,
            first.subset_of(visited@),
            found@.dom().finite(),
            found@.dom().subset_of(visited@),
            agrees(found@, start, Set::empty(), first),
            forall|p: Seq<char>| #[trigger]
                visited@.contains(p) && !first.contains(p) ==> may_answer(
                    *resolver,
                    p,
                    file_at(found@, p),
                ),
            forall|files: Map<Seq<char>, Seq<char>>|
                files.dom().finite() && agrees(files, found@, first, visited@) ==> {
                    let (rest, all) = inline_lines(files, all_lines, i as int, visited@);
                    #[trigger] inline_lines(files, all_lines, 0, first) == (output@ + rest, all)
                },
        decreases text@.len() - i,
    {
        let line = text[i].as_str();
        assert(all_lines[i as int] == line@);
        let ghost before = visited@;
        let ghost found_before = found@;
        let ghost output_before = output@;
        let chars = to_chars(line);
        let (a, b) = trim_between(&chars, 0, chars.len());
        assert(chars@.subrange(0, chars@.len() as int) =~= line@);
        let inner = text_between(&chars, a, b);
        match parse_import_line(inner.as_str()) {
            Some(path) => {
                if visited.contains(path.as_str()) {
                    push_char(&mut output, '\n');
                    assert(before.insert(path@) =~= before);
                    assert forall|files: Map<Seq<char>, Seq<char>>|
                        files.dom().finite() && agrees(files, found@, first, visited@) implies {
                        let (rest, all) = inline_lines(files, all_lines, i + 1, visited@);
                        #[trigger] inline_lines(files, all_lines, 0, first) == (output@ + rest, all)
                    } by {
                        let (rest, all) = inline_lines(files, all_lines, i + 1, visited@);
                        assert(output_before + ("\n"@ + rest) =~= output@ + rest);
                    }
                } else {
                    visited.insert(path.clone());
                    let ghost known = visited@;
                    let answer = resolver(path.as_str());
                    assert(may_answer(*resolver, path@, option_text(answer)));
                    match answer {
                        Some(contents) => {
                            proof {
                                assert(paths@.contains(path@));
                                lemma_one_fewer_left(paths@, before, path@);
                                lemma_fewer_left(paths@, first, before);
                                *found = Ghost(found@.insert(path@, contents@));
                            }
                            let ghost found_known = found@;
                            let plain = strip_bom(contents);
                            let part = resolve_imports_inner(
                                plain.as_str(),
                                resolver,
                                visited,
                                found,
                                paths,
                            );
                            output.append(part.as_str());
                            push_char(&mut output, '\n');
                            assert(known.union(visited@) =~= visited@);
                            assert forall|p: Seq<char>| #[trigger]
                                visited@.contains(p) && !first.contains(p) implies may_answer(
                                *resolver,
                                p,
                                file_at(found@, p),
                            ) by {
                                if known.contains(p) {
                                    assert(file_at(found@, p) == file_at(found_known, p));
                                }
                            }
                            assert forall|files: Map<Seq<char>, Seq<char>>|
                                files.dom().finite() && agrees(
                                    files,
                                    found@,
                                    first,
                                    visited@,
                                ) implies {
                                let (rest, all) = inline_lines(files, all_lines, i + 1, visited@);
                                #[trigger] inline_lines(files, all_lines, 0, first) == (
                                    output@ + rest,
                                    all,
                                )
                            } by {
                                assert(agrees(files, found_before, first, before)) by {
                                    assert forall|p: Seq<char>| #[trigger]
                                        before.contains(p) && !first.contains(p) implies file_at(
                                        files,
                                        p,
                                    ) == file_at(found_before, p) by {
                                        assert(known.contains(p));
                                        assert(visited@.contains(p));
                                        assert(file_at(found@, p) == file_at(found_known, p));
                                    }
                                }
                                assert(agrees(files, found@, known, visited@));
                                assert(file_at(files, path@) == file_at(found_known, path@)) by {
                                    assert(known.contains(path@));
                                    assert(visited@.contains(path@));
                                }
                                let (rest, all) = inline_lines(files, all_lines, i + 1, visited@);
                                assert(inline_lines(files, lines(plain@), 0, known) == (
                                    part@,
                                    visited@,
                                ));
                                assert(inline_lines(files, all_lines, i as int, before) == (
                                    part@ + "\n"@ + rest,
                                    all,
                                ));
                                assert(output_before + (part@ + "\n"@ + rest) =~= output@ + rest);
                            }
                        },
                        None => {
                            push_char(&mut output, '\n');
                            assert(file_at(found@, path@) is None);
                            assert forall|files: Map<Seq<char>, Seq<char>>|
                                files.dom().finite() && agrees(
                                    files,
                                    found@,
                                    first,
                                    visited@,
                                ) implies {
                                let (rest, all) = inline_lines(files, all_lines, i + 1, visited@);
                                #[trigger] inline_lines(files, all_lines, 0, first) == (
                                    output@ + rest,
                                    all,
                                )
                            } by {
                                assert(visited@.contains(path@));
                                assert(file_at(files, path@) is None);
                                assert(agrees(files, found_before, first, before)) by {
                                    assert forall|p: Seq<char>| #[trigger]
                                        before.contains(p) && !first.contains(p) implies file_at(
                                        files,
                                        p,
                                    ) == file_at(found_before, p) by {
                                        assert(visited@.contains(p));
                                    }
                                }
                                let (rest, all) = inline_lines(files, all_lines, i + 1, visited@);
                                assert(output_before + ("\n"@ + rest) =~= output@ + rest);
                            }
                        },
                    }
                }
            },
            None => {
                output.append(line);
                push_char(&mut output, '\n');
                assert forall|files: Map<Seq<char>, Seq<char>>|
                    files.dom().finite() && agrees(files, found@, first, visited@) implies {
                    let (rest, all) = inline_lines(files, all_lines, i + 1, visited@);
                    #[trigger] inline_lines(files, all_lines, 0, first) == (output@ + rest, all)
                } by {
                    let (rest, all) = inline_lines(files, all_lines, i + 1, visited@);
                    assert(output_before + (line@ + "\n"@ + rest) =~= output@ + rest);
                }
            },
        }
        i += 1;
    }
    assert forall|files: Map<Seq<char>, Seq<char>>|
        files.dom().finite() && agrees(files, found@, first, visited@) implies (
    #[trigger] inline_lines(files, all_lines, 0, first)) == (output@, visited@) by {
        assert(output@ + Seq::<char>::empty() =~= output@);
    }
    output
}

/// Replace the `import "path"` and `import './path'` lines of a source text by
/// the contents of the files.
///
/// The resolver takes a path as it is written in the import and returns the
/// file's contents, or `None` if there is no such file. There must be a finite
/// number of files. Each path is asked for once, so that circular imports come
/// to an end; a byte order mark at the start of a file is removed.
pub fn resolve_imports<F: Fn(&str) -> Option<String>>(source: &str, resolver: &F) -> (r: String)
    requires
        forall|p: &str| #[trigger] call_requires(*resolver, (p,)),
        exists|paths: Set<Seq<char>>| paths.finite() && #[trigger] finds_only(*resolver, paths),
    ensures
        exists|files: Map<Seq<char>, Seq<char>>|
            files.dom().finite() && r@ == #[trigger] inlined(files, source@) && forall|
                p: Seq<char>,
            | #[trigger]
                imported(files, source@).contains(p) ==> may_answer(
                    *resolver,
                    p,
                    file_at(files, p),
                ),
        forall|files: Map<Seq<char>, Seq<char>>|
            files.dom().finite() && #[trigger] reads(*resolver, files) ==> r@ == inlined(
                files,
                source@,
            ),
{
    let ghost paths = choose|paths: Set<Seq<char>>|
        paths.finite() && #[trigger] finds_only(*resolver, paths);
    let mut visited = NameSet::new();
    let mut found: Ghost<Map<Seq<char>, Seq<char>>> = Ghost(Map::empty());
    let plain = strip_bom(source.to_owned());
    let r = resolve_imports_inner(plain.as_str(), resolver, &mut visited, &mut found, Ghost(paths));
    proof {
        let files = found@;
        assert(agrees(files, found@, Set::empty(), visited@));
        assert(inlined(files, source@) == r@);
        assert(imported(files, source@) == visited@);
        assert forall|files: Map<Seq<char>, Seq<char>>|
            files.dom().finite() && #[trigger] reads(*resolver, files) implies r@ == inlined(
            files,
            source@,
        ) by {
            assert(agrees(files, found@, Set::empty(), visited@));
        }
    }
    r
}

/// Lines one after the other, each with a line feed.
pub open spec fn joined(text: Seq<Seq<char>>, i: int) -> Seq<char>
    decreases text.len() - i,
{
    if i < 0 || i >= text.len() {
        Seq::empty()
    } else {
        text[i] + "\n"@ + joined(text, i + 1)
    }
}

/// Whether no line of a text is an import.
pub open spec fn has_no_import(text: Seq<Seq<char>>) -> bool {
    forall|k: int| 0 <= k < text.len() ==> import_path(trimmed(#[trigger] text[k])) is None
}

/// A text that imports nothing keeps its lines.
pub proof fn law_lines_without_imports_are_kept(
    files: Map<Seq<char>, Seq<char>>,
    text: Seq<Seq<char>>,
    i: int,
    visited: Set<Seq<char>>,
)
    requires
        files.dom().finite(),
        has_no_import(text),
    ensures
        inline_lines(files, text, i, visited) == (joined(text, i), visited),
    decreases text.len() - i,
{
    if 0 <= i < text.len() {
        law_lines_without_imports_are_kept(files, text, i + 1, visited);
    }
}

/// A path that was imported before is not imported again: the line becomes
/// empty. This is what ends circular imports.
pub proof fn law_second_import_is_empty(
    files: Map<Seq<char>, Seq<char>>,
    text: Seq<Seq<char>>,
    i: int,
    visited: Set<Seq<char>>,
    path: Seq<char>,
)
    requires
        files.dom().finite(),
        0 <= i < text.len(),
        import_path(trimmed(text[i])) == Some(path),
        visited.contains(path),
    ensures
        inline_lines(files, text, i, visited).0 == "\n"@ + inline_lines(
            files,
            text,
            i + 1,
            visited,
        ).0,
{
    assert(visited.insert(path) =~= visited);
}

/// The paths that have been imported stay imported.
pub proof fn law_imported_paths_grow(
    files: Map<Seq<char>, Seq<char>>,
    text: Seq<Seq<char>>,
    i: int,
    visited: Set<Seq<char>>,
)
    requires
        files.dom().finite(),
    ensures
        visited.subset_of(inline_lines(files, text, i, visited).1),
    decreases files.dom().difference(visited).len(), text.len() - i,
{
    if 0 <= i < text.len() {
        match import_path(trimmed(text[i])) {
            None => law_imported_paths_grow(files, text, i + 1, visited),
            Some(path) => {
                let known = visited.insert(path);
                lemma_fewer_left(files.dom(), visited, known);
                if visited.contains(path) || !files.dom().contains(path) {
                    law_imported_paths_grow(files, text, i + 1, known);
                } else {
                    lemma_one_fewer_left(files.dom(), visited, path);
                    let more = inline_lines(files, lines(without_mark(files[path])), 0, known).1;
                    lemma_fewer_left(files.dom(), visited, known.union(more));
                    law_imported_paths_grow(files, text, i + 1, known.union(more));
                }
            },
        }
    }
}

proof fn lemma_position(s: Seq<char>, c: char, i: int)
    requires
        0 <= i <= s.len(),
    ensures
        i <= position_from(s, c, i) <= s.len(),
        position_from(s, c, i) < s.len() ==> s[position_from(s, c, i)] == c,
        forall|k: int| i <= k < position_from(s, c, i) ==> s[k] != c,
    decreases s.len() - i,
{
    if i < s.len() && s[i] != c {
        lemma_position(s, c, i + 1);
    }
}

proof fn lemma_position_is(s: Seq<char>, c: char, i: int, n: int)
    requires
        0 <= i <= n < s.len(),
        s[n] == c,
        forall|k: int| i <= k < n ==> s[k] != c,
    ensures
        position_from(s, c, i) == n,
    decreases n - i,
{
    if i < n {
        lemma_position_is(s, c, i + 1, n);
    }
}

/// A line that imports a path in double quotes, in single quotes, or with a
/// semicolon after it, is read back as that path.
pub proof fn law_import_line_is_read_back(path: Seq<char>, quote: char)
    requires
        quote == '"' || quote == '\'',
        !path.contains(quote),
    ensures
        import_path("import "@ + seq![quote] + path + seq![quote]) == Some(path),
        import_path("import "@ + seq![quote] + path + seq![quote] + ";"@) == Some(path),
{
    reveal_strlit("import ");
    reveal_strlit("import");
    reveal_strlit(";");
    let bare = seq![quote] + path + seq![quote];
    lemma_quoted_path(path, quote, Seq::empty());
    lemma_quoted_path(path, quote, ";"@);
    assert(trimmed(Seq::<char>::empty()) =~= Seq::empty());
    assert(trimmed(";"@) =~= ";"@);
    let line = "import "@ + seq![quote] + path + seq![quote];
    assert(line.take(6) =~= "import"@);
    assert(line.skip(6) =~= seq![' '] + bare);
    assert(trimmed(line.skip(6)) == bare) by {
        assert(line.skip(6).skip(1) =~= bare);
        assert(bare[0] == quote && bare.last() == quote);
        assert(trimmed(bare) == bare);
    }
    assert(bare =~= bare + Seq::<char>::empty());
    let longer = line + ";"@;
    assert(longer.take(6) =~= "import"@);
    assert(longer.skip(6) =~= seq![' '] + (bare + ";"@));
    assert(trimmed(longer.skip(6)) == bare + ";"@) by {
        assert(longer.skip(6).skip(1) =~= bare + ";"@);
        assert((bare + ";"@)[0] == quote && (bare + ";"@).last() == ';');
        assert(trimmed(bare + ";"@) == bare + ";"@);
    }
}

proof fn lemma_quoted_path(path: Seq<char>, quote: char, tail: Seq<char>)
    requires
        quote == '"' || quote == '\'',
        !path.contains(quote),
        trimmed(tail).len() == 0 || trimmed(tail) == ";"@,
    ensures
        quoted_path(seq![quote] + path + seq![quote] + tail) == Some(path),
{
    let rest = seq![quote] + path + seq![quote] + tail;
    let body = rest.skip(1);
    assert(body =~= path + seq![quote] + tail);
    assert forall|k: int| 0 <= k < path.len() implies body[k] != quote by {
        assert(path.contains(path[k]));
    }
    lemma_position_is(body, quote, 0, path.len() as int);
    assert(body.skip(path.len() as int + 1) =~= tail);
    assert(body.take(path.len() as int) =~= path);
}

proof fn lemma_trimmed_end(s: Seq<char>)
    requires
        s.len() > 0,
        white_space(s.last()),
    ensures
        trimmed(s) == trimmed(s.drop_last()),
    decreases s.len(),
{
    if white_space(s[0]) {
        if s.len() > 1 {
            lemma_trimmed_end(s.skip(1));
            assert(s.skip(1).drop_last() =~= s.drop_last().skip(1));
        } else {
            assert(s.skip(1) =~= s.drop_last());
        }
    }
}

proof fn lemma_lines_hold_no_feed(s: Seq<char>)
    ensures
        forall|k: int| 0 <= k < lines(s).len() ==> !(#[trigger] lines(s)[k]).contains('\n'),
    decreases s.len(),
{
    lemma_position(s, '\n', 0);
    let n = position_from(s, '\n', 0);
    if s.len() > 0 && n < s.len() {
        lemma_lines_hold_no_feed(s.skip(n + 1));
        assert(!s.take(n).contains('\n'));
        assert forall|k: int| 0 <= k < lines(s).len() implies !(
        #[trigger] lines(s)[k]).contains('\n') by {
            if k > 0 {
                assert(lines(s)[k] == lines(s.skip(n + 1))[k - 1]);
            }
        }
    }
}

/// Whether a text is empty or ends in a line feed.
pub open spec fn is_closed(s: Seq<char>) -> bool {
    s.len() == 0 || s.last() == '\n'
}

proof fn lemma_lines_of_both(a: Seq<char>, b: Seq<char>)
    requires
        is_closed(a),
    ensures
        lines(a + b) == lines(a) + lines(b),
    decreases a.len(),
{
    if a.len() == 0 {
        assert(a + b =~= b);
        assert(lines(a) + lines(b) =~= lines(b));
    } else {
        lemma_position(a, '\n', 0);
        let n = position_from(a, '\n', 0);
        assert(n < a.len());
        lemma_position_is(a + b, '\n', 0, n);
        assert((a + b).take(n) =~= a.take(n));
        assert((a + b).skip(n + 1) =~= a.skip(n + 1) + b);
        lemma_lines_of_both(a.skip(n + 1), b);
        let first = seq![without_return(a.take(n))];
        assert(first + (lines(a.skip(n + 1)) + lines(b)) =~= (first + lines(a.skip(n + 1)))
            + lines(b));
    }
}

proof fn lemma_line_with_feed(line: Seq<char>)
    requires
        !line.contains('\n'),
    ensures
        lines(line + "\n"@) == seq![without_return(line)],
{
    reveal_strlit("\n");
    let s = line + "\n"@;
    assert forall|k: int| 0 <= k < line.len() implies s[k] != '\n' by {
        assert(line.contains(line[k]));
    }
    lemma_position_is(s, '\n', 0, line.len() as int);
    assert(s.take(line.len() as int) =~= line);
    assert(s.skip(line.len() as int + 1) =~= Seq::empty());
    assert(lines(Seq::<char>::empty()) =~= Seq::empty());
    assert(lines(s) =~= seq![without_return(line)]);
}

proof fn lemma_pieces_hold_no_import(a: Seq<char>, b: Seq<char>)
    requires
        is_closed(a),
        is_closed(b),
        has_no_import(lines(a)),
        has_no_import(lines(b)),
    ensures
        is_closed(a + b),
        has_no_import(lines(a + b)),
{
    lemma_lines_of_both(a, b);
    if b.len() == 0 {
        assert(a + b =~= a);
    }
}

proof fn lemma_empty_line()
    ensures
        is_closed("\n"@),
        has_no_import(lines("\n"@)),
{
    reveal_strlit("\n");
    lemma_line_with_feed(Seq::empty());
    assert(Seq::<char>::empty() + "\n"@ =~= "\n"@);
}

proof fn lemma_no_import_is_left(
    files: Map<Seq<char>, Seq<char>>,
    text: Seq<Seq<char>>,
    i: int,
    visited: Set<Seq<char>>,
)
    requires
        files.dom().finite(),
        forall|k: int| 0 <= k < text.len() ==> !(#[trigger] text[k]).contains('\n'),
    ensures
        is_closed(inline_lines(files, text, i, visited).0),
        has_no_import(lines(inline_lines(files, text, i, visited).0)),
    decreases files.dom().difference(visited).len(), text.len() - i,
{
    if 0 <= i < text.len() {
        lemma_empty_line();
        match import_path(trimmed(text[i])) {
            None => {
                lemma_no_import_is_left(files, text, i + 1, visited);
                let line = text[i] + "\n"@;
                lemma_line_with_feed(text[i]);
                reveal_strlit("\n");
                if text[i].len() > 0 && text[i].last() == '\r' {
                    lemma_trimmed_end(text[i]);
                }
                lemma_pieces_hold_no_import(line, inline_lines(files, text, i + 1, visited).0);
            },
            Some(path) => {
                let known = visited.insert(path);
                lemma_fewer_left(files.dom(), visited, known);
                if visited.contains(path) || !files.dom().contains(path) {
                    lemma_no_import_is_left(files, text, i + 1, known);
                    lemma_pieces_hold_no_import(
                        "\n"@,
                        inline_lines(files, text, i + 1, known).0,
                    );
                } else {
                    let inner = lines(without_mark(files[path]));
                    lemma_one_fewer_left(files.dom(), visited, path);
                    lemma_lines_hold_no_feed(without_mark(files[path]));
                    lemma_no_import_is_left(files, inner, 0, known);
                    let (part, more) = inline_lines(files, inner, 0, known);
                    lemma_fewer_left(files.dom(), visited, known.union(more));
                    lemma_no_import_is_left(files, text, i + 1, known.union(more));
                    lemma_pieces_hold_no_import(part, "\n"@);
                    lemma_pieces_hold_no_import(
                        part + "\n"@,
                        inline_lines(files, text, i + 1, known.union(more)).0,
                    );
                }
            },
        }
    } else {
        assert(lines(Seq::<char>::empty()) =~= Seq::empty());
    }
}

/// Once imports are resolved, no line of the text is an import, and the text is
/// empty or ends in a line feed.
pub proof fn law_no_import_is_left(files: Map<Seq<char>, Seq<char>>, source: Seq<char>)
    requires
        files.dom().finite(),
    ensures
        has_no_import(lines(inlined(files, source))),
        is_closed(inlined(files, source)),
{
    lemma_lines_hold_no_feed(without_mark(source));
    lemma_no_import_is_left(files, lines(without_mark(source)), 0, Set::empty());
}

/// Whether a text has no byte order mark at its start, and no line of it ends in
/// a carriage return.
pub open spec fn is_plain(s: Seq<char>) -> bool {
    &&& s.len() > 0 ==> s[0] != '\u{FEFF}'
    &&& forall|i: int| #![trigger s[i]] 0 < i < s.len() && s[i] == '\n' ==> s[i - 1] != '\r'
}

proof fn lemma_joined_after(first: Seq<char>, rest: Seq<Seq<char>>, i: int)
    requires
        0 <= i,
    ensures
        joined(seq![first] + rest, i + 1) == joined(rest, i),
    decreases rest.len() - i,
{
    let all = seq![first] + rest;
    if i < rest.len() {
        lemma_joined_after(first, rest, i + 1);
        assert(all[i + 1] == rest[i]);
    }
}

proof fn lemma_joined_lines(s: Seq<char>)
    requires
        is_closed(s),
        forall|i: int| #![trigger s[i]] 0 < i < s.len() && s[i] == '\n' ==> s[i - 1] != '\r',
    ensures
        joined(lines(s), 0) == s,
    decreases s.len(),
{
    if s.len() > 0 {
        reveal_strlit("\n");
        lemma_position(s, '\n', 0);
        let n = position_from(s, '\n', 0);
        assert(n < s.len());
        assert(s[n] == '\n');
        let first = s.take(n);
        let rest = s.skip(n + 1);
        assert(without_return(first) == first);
        assert forall|i: int| #![trigger rest[i]] 0 < i < rest.len() && rest[i]
            == '\n' implies rest[i - 1] != '\r' by {
            assert(s[i + n + 1] == rest[i]);
            assert(s[i + n] == rest[i - 1]);
        }
        lemma_joined_lines(rest);
        assert(lines(s) == seq![first] + lines(rest));
        assert(lines(s)[0] == first);
        lemma_joined_after(first, lines(rest), 0);
        assert(joined(lines(s), 0) == first + "\n"@ + rest);
        assert(first + "\n"@ + rest =~= s);
    }
}

/// A text without imports stays as it is, if it is empty or ends in a line feed
/// and holds neither a byte order mark at its start nor a carriage return at the
/// end of a line.
pub proof fn law_text_without_imports_stays(files: Map<Seq<char>, Seq<char>>, source: Seq<char>)
    requires
        files.dom().finite(),
        has_no_import(lines(source)),
        is_closed(source),
        is_plain(source),
    ensures
        inlined(files, source) == source,
{
    law_lines_without_imports_are_kept(files, lines(source), 0, Set::empty());
    lemma_joined_lines(source);
}

/// Resolving the imports of a text in which they were resolved already returns
/// it, whatever files there are by then.
pub proof fn law_resolved_text_stays(
    files: Map<Seq<char>, Seq<char>>,
    source: Seq<char>,
    later: Map<Seq<char>, Seq<char>>,
)
    requires
        files.dom().finite(),
        later.dom().finite(),
        is_plain(inlined(files, source)),
    ensures
        inlined(later, inlined(files, source)) == inlined(files, source),
{
    law_no_import_is_left(files, source);
    law_text_without_imports_stays(later, inlined(files, source));
}

proof fn lemma_lines_hold_no(s: Seq<char>, c: char)
    requires
        !s.contains(c),
    ensures
        forall|k: int| 0 <= k < lines(s).len() ==> !(#[trigger] lines(s)[k]).contains(c),
    decreases s.len(),
{
    lemma_position(s, '\n', 0);
    let n = position_from(s, '\n', 0);
    if s.len() > 0 && n < s.len() {
        let first = without_return(s.take(n));
        let rest = s.skip(n + 1);
        assert(!first.contains(c)) by {
            assert forall|j: int| 0 <= j < first.len() implies first[j] != c by {
                assert(s.contains(s[j]));
            }
        }
        assert(!rest.contains(c)) by {
            assert forall|j: int| 0 <= j < rest.len() implies rest[j] != c by {
                assert(s.contains(s[j + n + 1]));
            }
        }
        lemma_lines_hold_no(rest, c);
        assert forall|k: int| 0 <= k < lines(s).len() implies !(
        #[trigger] lines(s)[k]).contains(c) by {
            if k > 0 {
                assert(lines(s)[k] == lines(rest)[k - 1]);
            }
        }
    }
}

proof fn lemma_both_hold_no(a: Seq<char>, b: Seq<char>, c: char)
    requires
        !a.contains(c),
        !b.contains(c),
    ensures
        !(a + b).contains(c),
{
    assert forall|j: int| 0 <= j < (a + b).len() implies (a + b)[j] != c by {
        if j < a.len() {
            assert(a.contains(a[j]));
        } else {
            assert(b.contains(b[j - a.len()]));
        }
    }
}

proof fn lemma_inlined_holds_no(
    files: Map<Seq<char>, Seq<char>>,
    text: Seq<Seq<char>>,
    i: int,
    visited: Set<Seq<char>>,
    c: char,
)
    requires
        files.dom().finite(),
        c != '\n',
        forall|k: int| 0 <= k < text.len() ==> !(#[trigger] text[k]).contains(c),
        forall|p: Seq<char>| #[trigger]
            inline_lines(files, text, i, visited).1.contains(p) && files.dom().contains(p)
                ==> !files[p].contains(c),
    ensures
        !inline_lines(files, text, i, visited).0.contains(c),
    decreases files.dom().difference(visited).len(), text.len() - i,
{
    if 0 <= i < text.len() {
        reveal_strlit("\n");
        assert(!"\n"@.contains(c));
        match import_path(trimmed(text[i])) {
            None => {
                assert(inline_lines(files, text, i, visited).1 == inline_lines(
                    files,
                    text,
                    i + 1,
                    visited,
                ).1);
                assert forall|p: Seq<char>| #[trigger]
                    inline_lines(files, text, i + 1, visited).1.contains(p) && files.dom().contains(
                        p,
                    ) implies !files[p].contains(c) by {
                    assert(inline_lines(files, text, i, visited).1.contains(p));
                }
                lemma_inlined_holds_no(files, text, i + 1, visited, c);
                lemma_both_hold_no(text[i], "\n"@, c);
                lemma_both_hold_no(
                    text[i] + "\n"@,
                    inline_lines(files, text, i + 1, visited).0,
                    c,
                );
            },
            Some(path) => {
                let known = visited.insert(path);
                lemma_fewer_left(files.dom(), visited, known);
                if visited.contains(path) || !files.dom().contains(path) {
                    assert forall|p: Seq<char>| #[trigger]
                        inline_lines(files, text, i + 1, known).1.contains(p)
                            && files.dom().contains(p) implies !files[p].contains(c) by {
                        assert(inline_lines(files, text, i, visited).1.contains(p));
                    }
                    lemma_inlined_holds_no(files, text, i + 1, known, c);
                    lemma_both_hold_no("\n"@, inline_lines(files, text, i + 1, known).0, c);
                } else {
                    let plain = without_mark(files[path]);
                    let inner = lines(plain);
                    lemma_one_fewer_left(files.dom(), visited, path);
                    let (part, more) = inline_lines(files, inner, 0, known);
                    let later = known.union(more);
                    lemma_fewer_left(files.dom(), visited, later);
                    law_imported_paths_grow(files, text, i + 1, later);
                    let all = inline_lines(files, text, i + 1, later).1;
                    assert(all.contains(path)) by {
                        assert(later.contains(path));
                    }
                    assert(inline_lines(files, text, i, visited).1.contains(path));
                    assert forall|p: Seq<char>| #[trigger]
                        inline_lines(files, inner, 0, known).1.contains(p) && files.dom().contains(
                            p,
                        ) implies !files[p].contains(c) by {
                        assert(later.contains(p));
                        assert(all.contains(p));
                        assert(inline_lines(files, text, i, visited).1.contains(p));
                    }
                    assert forall|j: int| 0 <= j < plain.len() implies plain[j] != c by {
                        let from = files[path];
                        assert(from.contains(from[j + (from.len() - plain.len())]));
                    }
                    lemma_lines_hold_no(plain, c);
                    lemma_inlined_holds_no(files, inner, 0, known, c);
                    lemma_inlined_holds_no(files, text, i + 1, later, c);
                    lemma_both_hold_no(part, "\n"@, c);
                    lemma_both_hold_no(
                        part + "\n"@,
                        inline_lines(files, text, i + 1, later).0,
                        c,
                    );
                }
            },
        }
    }
}

/// Whether a text holds neither carriage returns nor byte order marks.
pub open spec fn has_no_marks(s: Seq<char>) -> bool {
    !s.contains('\r') && !s.contains('\u{FEFF}')
}

/// Where neither the source nor a file that it imports holds carriage returns or
/// byte order marks, the text with the imports resolved holds none either, and so
/// stays as it is when it is resolved again.
pub proof fn law_texts_without_marks_stay(
    files: Map<Seq<char>, Seq<char>>,
    source: Seq<char>,
    later: Map<Seq<char>, Seq<char>>,
)
    requires
        files.dom().finite(),
        later.dom().finite(),
        has_no_marks(source),
        forall|p: Seq<char>| #[trigger]
            imported(files, source).contains(p) && files.dom().contains(p) ==> has_no_marks(
                files[p],
            ),
    ensures
        has_no_marks(inlined(files, source)),
        inlined(later, inlined(files, source)) == inlined(files, source),
{
    let r = inlined(files, source);
    assert(without_mark(source) == source) by {
        if source.len() > 0 {
            assert(source.contains(source[0]));
        }
    }
    lemma_lines_hold_no(source, '\r');
    lemma_lines_hold_no(source, '\u{FEFF}');
    assert forall|p: Seq<char>| #[trigger]
        inline_lines(files, lines(source), 0, Set::empty()).1.contains(p) && files.dom().contains(
            p,
        ) implies has_no_marks(files[p]) by {
        assert(imported(files, source).contains(p));
    }
    lemma_inlined_holds_no(files, lines(source), 0, Set::empty(), '\r');
    lemma_inlined_holds_no(files, lines(source), 0, Set::empty(), '\u{FEFF}');
    assert(is_plain(r)) by {
        assert forall|i: int| 0 <= i < r.len() implies r[i] != '\r' && r[i] != '\u{FEFF}' by {
            assert(r.contains(r[i]));
        }
    }
    law_resolved_text_stays(files, source, later);
}

} // verus!
