use vstd::prelude::*;
use crate::text::{
    chars_of, string_of_chars, lines, lines_spec, views, find_str, first_occurrence, trim, trim_spec,
    starts_with_str, split_str, split_str_spec, join, join_spec, concat_str, split_spec, strip_cr,
    lemma_split_nonempty, occurs_at, lemma_first_occurrence_found, leading_ws, trailing_ws,
};
use crate::unicode::{str_to_lowercase, spec_str_to_lowercase, is_ascii_text, ascii_lowercase, ascii_lower, spec_is_whitespace};

verus! {

/// Whether a header line names the header `name`: its lowercased text starts with the
/// lowercased name and a colon, and the line holds a colon.
pub open spec fn names_header(line: Seq<char>, name: Seq<char>) -> bool {
    (spec_str_to_lowercase(name) + ":"@).is_prefix_of(spec_str_to_lowercase(line)) && line.contains(':')
}

/// The value of a header line: what follows its first colon, trimmed.
pub open spec fn line_value(line: Seq<char>) -> Seq<char> {
    match first_occurrence(line, seq![':']) {
        Some(i) => trim_spec(line.skip(i + 1)),
        None => Seq::empty(),
    }
}

/// The value of the first of `ls` that names the header `name`.
pub open spec fn find_header(ls: Seq<Seq<char>>, name: Seq<char>) -> Option<Seq<char>>
    decreases ls.len(),
{
    if ls.len() == 0 {
        None
    } else if names_header(ls[0], name) {
        Some(line_value(ls[0]))
    } else {
        find_header(ls.drop_first(), name)
    }
}

/// The value of header `name` (matched without regard to case) in header text.
pub open spec fn header_value_spec(headers: Seq<char>, name: Seq<char>) -> Option<Seq<char>> {
    find_header(lines_spec(headers), name)
}

/// An optional string by its characters.
pub open spec fn opt_text(o: Option<String>) -> Option<Seq<char>> {
    match o {
        Some(s) => Some(s@),
        None => None,
    }
}

/// The value of the first header line naming `name`, trimmed.
pub fn extract_header_value(headers: &str, name: &str) -> (r: Option<String>)
    ensures
        opt_text(r) == header_value_spec(headers@, name@),
{
    let name_lower = concat_str(str_to_lowercase(name).as_str(), ":");
    proof { reveal_strlit(":"); }
    let ls = lines(headers);
    let ghost lv = views(ls@);
    let mut i: usize = 0;
    assert(lv.skip(0) =~= lv);
    while i < ls.len()
        invariant
            i <= ls@.len(),
            lv == views(ls@),
            lv == lines_spec(headers@),
            name_lower@ == spec_str_to_lowercase(name@) + ":"@,
            header_value_spec(headers@, name@) == find_header(lv.skip(i as int), name@),
        decreases ls@.len() - i,
    {
        let line = &ls[i];
        assert(lv.skip(i as int)[0] == line@);
        assert(lv.skip(i as int).drop_first() =~= lv.skip(i + 1));
        let lower = str_to_lowercase(line.as_str());
        proof { reveal_strlit(":"); }
        assert(":"@ =~= seq![':']);
        if starts_with_str(lower.as_str(), name_lower.as_str()) {
            match find_str(line.as_str(), ":") {
                Some(colon_pos) => {
                    assert(line@.contains(':')) by {
                        assert(line@.subrange(colon_pos as int, colon_pos + 1) == seq![':']);
                        assert(line@.subrange(colon_pos as int, colon_pos + 1)[0] == line@[colon_pos as int]);
                    }
                    assert(":"@ =~= seq![':']);
                    let v = chars_of(line.as_str());
                    let n = v.len();
                    let after = string_of_chars(&v, colon_pos + 1, n);
                    assert(after@ =~= line@.skip(colon_pos + 1));
                    return Some(trim(after.as_str()));
                },
                None => {
                    assert(!line@.contains(':')) by {
                        if line@.contains(':') {
                            let k = choose|k: int| 0 <= k < line@.len() && line@[k] == ':';
                            assert(line@.subrange(k, k + 1) =~= seq![':']);
                            assert(crate::text::occurs_at(line@, ":"@, k));
                        }
                    }
                },
            }
        }
        i += 1;
    }
    None
}

/// Whether a line is the header `name` to replace: not empty, and its lowercased text
/// starts with the lowercased name and a colon.
pub open spec fn is_replace_target(line: Seq<char>, name: Seq<char>) -> bool {
    line.len() > 0 && (spec_str_to_lowercase(name) + ":"@).is_prefix_of(spec_str_to_lowercase(line))
}

/// The position of the first line that is the header `name` to replace.
pub open spec fn first_target(ls: Seq<Seq<char>>, name: Seq<char>) -> Option<int>
    decreases ls.len(),
{
    if ls.len() == 0 {
        None
    } else if is_replace_target(ls[0], name) {
        Some(0)
    } else {
        match first_target(ls.drop_first(), name) {
            Some(i) => Some(i + 1),
            None => None,
        }
    }
}

/// Header text after replacing the first line of header `name` by `name: value`; unchanged
/// when no line is that header.
pub open spec fn replaced_spec(headers: Seq<char>, name: Seq<char>, value: Seq<char>) -> Seq<char> {
    let ls = split_str_spec(headers, "\r\n"@);
    match first_target(ls, name) {
        Some(i) => join_spec(ls.update(i, name + ": "@ + value), "\r\n"@),
        None => headers,
    }
}

proof fn lemma_first_target_bounds(ls: Seq<Seq<char>>, name: Seq<char>)
    ensures
        first_target(ls, name) matches Some(i) ==> 0 <= i < ls.len() && is_replace_target(ls[i], name)
            && forall|j: int| 0 <= j < i ==> !is_replace_target(#[trigger] ls[j], name),
        first_target(ls, name) is None ==> forall|j: int| 0 <= j < ls.len() ==> !is_replace_target(#[trigger] ls[j], name),
    decreases ls.len(),
{
    if ls.len() > 0 {
        lemma_first_target_bounds(ls.drop_first(), name);
        assert forall|j: int| 1 <= j < ls.len() implies ls[j] == ls.drop_first()[j - 1] by {}
    }
}

/// Replaces the value of header `name` (the first line naming it, without regard to case);
/// nothing changes when the header is missing.
pub fn replace_header_value(headers: &mut String, name: &str, value: &str)
    ensures
        final(headers)@ == replaced_spec(old(headers)@, name@, value@),
{
    let name_lower = concat_str(str_to_lowercase(name).as_str(), ":");
    proof { reveal_strlit(":"); reveal_strlit("\r\n"); reveal_strlit(": "); }
    let mut ls = split_str(headers.as_str(), "\r\n");
    let ghost orig = views(ls@);
    proof { lemma_first_target_bounds(orig, name@); }
    let mut found = false;
    let mut i: usize = 0;
    while i < ls.len()
        invariant
            i <= ls@.len(),
            ls@.len() == orig.len(),
            orig == split_str_spec(old(headers)@, "\r\n"@),
            name_lower@ == spec_str_to_lowercase(name@) + ":"@,
            !found ==> views(ls@) == orig && forall|j: int| 0 <= j < i ==> !is_replace_target(#[trigger] orig[j], name@),
            found ==> (first_target(orig, name@) matches Some(t) && t < i
                && views(ls@) == orig.update(t, name@ + ": "@ + value@)),
            first_target(orig, name@) matches Some(t) ==> 0 <= t < orig.len() && is_replace_target(orig[t], name@)
                && forall|j: int| 0 <= j < t ==> !is_replace_target(#[trigger] orig[j], name@),
            first_target(orig, name@) is None ==> forall|j: int| 0 <= j < orig.len() ==> !is_replace_target(#[trigger] orig[j], name@),
        decreases ls@.len() - i,
    {
        if !found {
            let line = ls[i].clone();
            assert(line@ == orig[i as int]);
            let lower = str_to_lowercase(line.as_str());
            if !line.as_str().is_empty() && starts_with_str(lower.as_str(), name_lower.as_str()) {
                let mut new_line = concat_str(name, ": ");
                new_line.append(value);
                let ghost before = ls@;
                ls.set(i, new_line);
                assert(is_replace_target(orig[i as int], name@));
                assert(first_target(orig, name@) == Some(i as int)) by {
                    if first_target(orig, name@) is None {
                        assert(!is_replace_target(orig[i as int], name@));
                    } else {
                        let t = first_target(orig, name@)->0;
                        if t < i {
                            assert(!is_replace_target(orig[t], name@));
                        }
                        if t > i {
                            assert(!is_replace_target(orig[i as int], name@));
                        }
                    }
                }
                assert(views(ls@) =~= orig.update(i as int, name@ + ": "@ + value@));
                found = true;
            }
        }
        i += 1;
    }
    if found {
        *headers = join(&ls, "\r\n");
    } else {
        assert(first_target(orig, name@) is None) by {
            if first_target(orig, name@) is Some {
                let t = first_target(orig, name@)->0;
                assert(!is_replace_target(orig[t], name@));
            }
        }
    }
}

/// Header text with header `name` added when missing: before the blank line that ends the
/// headers, or at the end (after a line break if needed) followed by a blank line.
pub open spec fn injected_spec(headers: Seq<char>, name: Seq<char>, value: Seq<char>) -> Seq<char> {
    if header_value_spec(headers, name) is Some {
        headers
    } else {
        with_header_added(headers, name, value)
    }
}

/// Header text with the line `name: value` added: before the blank line that ends the
/// headers, or, when there is none, at the end (after a line break if the text does not end
/// with one), followed by a blank line.
pub open spec fn with_header_added(headers: Seq<char>, name: Seq<char>, value: Seq<char>) -> Seq<char> {
    match first_occurrence(headers, "\r\n\r\n"@) {
        Some(p) => headers.take(p + 2) + name + ": "@ + value + "\r\n"@ + headers.skip(p + 2),
        None => (if headers.len() > 0 && headers.last() != '\n' { headers + "\r\n"@ } else { headers })
            + name + ": "@ + value + "\r\n\r\n"@,
    }
}

/// Adds header `name: value` when the header is missing; leaves the text alone otherwise.
pub fn inject_header_if_missing(headers: &mut String, name: &str, value: &str)
    ensures
        final(headers)@ == injected_spec(old(headers)@, name@, value@),
{
    if extract_header_value(headers.as_str(), name).is_some() {
        return;
    }
    proof { reveal_strlit("\r\n\r\n"); reveal_strlit("\r\n"); }
    match find_str(headers.as_str(), "\r\n\r\n") {
        Some(p) => {
            let v = chars_of(headers.as_str());
            let n = v.len();
            assert(p + 4 <= n);
            let mut out = string_of_chars(&v, 0, p + 2);
            out.append(name);
            out.append(": ");
            out.append(value);
            out.append("\r\n");
            let tail = string_of_chars(&v, p + 2, n);
            out.append(tail.as_str());
            assert(tail@ =~= old(headers)@.skip(p + 2));
            *headers = out;
        },
        None => {
            let v = chars_of(headers.as_str());
            let n = v.len();
            if n > 0 && v[n - 1] != '\n' {
                headers.append("\r\n");
            }
            headers.append(name);
            headers.append(": ");
            headers.append(value);
            headers.append("\r\n\r\n");
        },
    }
}

/// A text without `sep` is one piece.
proof fn lemma_split_no_sep(s: Seq<char>, sep: char)
    requires
        !s.contains(sep),
    ensures
        split_spec(s, sep) == seq![s],
    decreases s.len(),
{
    if s.len() > 0 {
        let d = s.drop_last();
        assert(!d.contains(sep)) by {
            if d.contains(sep) {
                let i = choose|i: int| 0 <= i < d.len() && d[i] == sep;
                assert(s[i] == sep);
            }
        }
        assert(s.last() != sep) by {
            if s.last() == sep {
                assert(s[s.len() - 1] == sep);
            }
        }
        lemma_split_no_sep(d, sep);
        assert(d.push(s.last()) =~= s);
    } else {
        assert(s =~= Seq::<char>::empty());
    }
}

/// Splitting a text that ends with `sep` followed by more: the pieces of the first part but
/// its empty last one, then the pieces of the rest.
proof fn lemma_split_append(s: Seq<char>, t: Seq<char>, sep: char)
    requires
        s.len() > 0,
        s.last() == sep,
    ensures
        split_spec(s + t, sep) == split_spec(s, sep).drop_last() + split_spec(t, sep),
    decreases t.len(),
{
    lemma_split_nonempty(s.drop_last(), sep);
    if t.len() == 0 {
        assert(s + t =~= s);
        assert(split_spec(s, sep).drop_last() + seq![Seq::<char>::empty()] =~= split_spec(s, sep));
    } else {
        let u = t.drop_last();
        lemma_split_append(s, u, sep);
        assert((s + t).drop_last() =~= s + u);
        assert((s + t).last() == t.last());
        lemma_split_nonempty(u, sep);
        let a = split_spec(s, sep).drop_last();
        let b = split_spec(u, sep);
        if t.last() == sep {
            assert((a + b).push(Seq::<char>::empty()) =~= a + b.push(Seq::<char>::empty()));
        } else {
            assert((a + b).update((a + b).len() - 1, (a + b).last().push(t.last()))
                =~= a + b.update(b.len() - 1, b.last().push(t.last())));
        }
    }
}

/// A line written with its CRLF after a text that is empty or ends a line is one of the
/// lines of the result.
proof fn lemma_written_line(whole: Seq<char>, a: Seq<char>, line: Seq<char>, b: Seq<char>) -> (k: int)
    requires
        a.len() == 0 || a.last() == '\n',
        !line.contains('\n'),
        whole == a + line + "\r\n"@ + b,
    ensures
        0 <= k < lines_spec(whole).len(),
        lines_spec(whole)[k] == line,
        a.len() == 0 ==> k == 0,
        a.len() > 0 ==> k == split_spec(a, '\n').len() - 1
            && forall|j: int| 0 <= j < k ==> #[trigger] lines_spec(whole)[j] == strip_cr(split_spec(a, '\n')[j]),
{
    reveal_strlit("\r\n");
    let x = line.push('\r');
    let l2 = line + "\r\n"@;
    assert(l2 =~= x.push('\n'));
    assert(!x.contains('\n')) by {
        if x.contains('\n') {
            let i = choose|i: int| 0 <= i < x.len() && x[i] == '\n';
            assert(line[i] == '\n');
        }
    }
    lemma_split_no_sep(x, '\n');
    assert(split_spec(l2, '\n') == seq![x].push(Seq::<char>::empty())) by {
        assert(l2.drop_last() =~= x);
    }
    lemma_split_append(l2, b, '\n');
    assert(seq![x].push(Seq::<char>::empty()).drop_last() =~= seq![x]);
    let t = l2 + b;
    lemma_split_nonempty(b, '\n');
    let st = split_spec(t, '\n');
    assert(st == seq![x] + split_spec(b, '\n'));
    let (p, k) = if a.len() == 0 {
        assert(whole =~= t);
        (st, 0int)
    } else {
        assert(whole =~= a + t);
        lemma_split_append(a, t, '\n');
        lemma_split_nonempty(a, '\n');
        let sa = split_spec(a, '\n').drop_last();
        (sa + st, sa.len() as int)
    };
    assert(split_spec(whole, '\n') == p);
    assert(p[k] == x);
    assert(p.len() >= k + 2);
    assert(strip_cr(x) =~= line);
    if a.len() > 0 {
        assert forall|j: int| 0 <= j < k implies #[trigger] lines_spec(whole)[j] == strip_cr(split_spec(a, '\n')[j]) by {
            assert(p[j] == split_spec(a, '\n')[j]);
        }
    }
    k
}

/// The lines of a text that starts with a part ending a line begin with that part's lines.
proof fn lemma_prefix_lines(h: Seq<char>, a: Seq<char>, rest: Seq<char>)
    requires
        a.len() > 0,
        a.last() == '\n',
        h == a + rest,
    ensures
        forall|j: int| 0 <= j < split_spec(a, '\n').len() - 1 ==> j < lines_spec(h).len()
            && #[trigger] lines_spec(h)[j] == strip_cr(split_spec(a, '\n')[j]),
{
    lemma_split_append(a, rest, '\n');
    lemma_split_nonempty(rest, '\n');
    lemma_split_nonempty(a, '\n');
    let p = split_spec(h, '\n');
    assert forall|j: int| 0 <= j < split_spec(a, '\n').len() - 1 implies j < lines_spec(h).len()
        && #[trigger] lines_spec(h)[j] == strip_cr(split_spec(a, '\n')[j]) by {
        assert(p[j] == split_spec(a, '\n')[j]);
    }
}

/// The lines of a text that does not end a line, with CRLF added, are those of the text.
proof fn lemma_crlf_lines(h: Seq<char>)
    requires
        h.len() > 0,
        h.last() != '\n',
    ensures
        forall|j: int| 0 <= j < split_spec(h + "\r\n"@, '\n').len() - 1 ==> j < lines_spec(h).len()
            && #[trigger] lines_spec(h)[j] == strip_cr(split_spec(h + "\r\n"@, '\n')[j]),
{
    reveal_strlit("\r\n");
    let pre = h + "\r\n"@;
    let hr = h.push('\r');
    assert(pre.drop_last() =~= hr);
    assert(hr.drop_last() =~= h);
    lemma_split_nonempty(h, '\n');
    let sh = split_spec(h, '\n');
    let n = sh.len();
    assert(split_spec(hr, '\n') == sh.update(n - 1, sh.last().push('\r')));
    assert(split_spec(pre, '\n') == split_spec(hr, '\n').push(Seq::<char>::empty()));
    assert(sh.last().len() > 0) by {
        lemma_split_nonempty(h.drop_last(), '\n');
    }
    assert forall|j: int| 0 <= j < split_spec(pre, '\n').len() - 1 implies j < lines_spec(h).len()
        && #[trigger] lines_spec(h)[j] == strip_cr(split_spec(pre, '\n')[j]) by {
        if j == n - 1 {
            assert(strip_cr(sh.last().push('\r')) =~= sh.last());
        }
    }
}

/// No line names a header that is not found.
proof fn lemma_find_none(ls: Seq<Seq<char>>, name: Seq<char>)
    requires
        find_header(ls, name) is None,
    ensures
        forall|j: int| 0 <= j < ls.len() ==> !names_header(#[trigger] ls[j], name),
    decreases ls.len(),
{
    if ls.len() > 0 {
        lemma_find_none(ls.drop_first(), name);
        assert forall|j: int| 0 < j < ls.len() implies #[trigger] ls[j] == ls.drop_first()[j - 1] by {}
    }
}

/// The header's value is that of the first line naming it.
proof fn lemma_find_at(ls: Seq<Seq<char>>, name: Seq<char>, k: int)
    requires
        0 <= k < ls.len(),
        names_header(ls[k], name),
        forall|j: int| 0 <= j < k ==> !names_header(#[trigger] ls[j], name),
    ensures
        find_header(ls, name) == Some(line_value(ls[k])),
    decreases k,
{
    if k > 0 {
        assert(!names_header(ls[0], name));
        assert forall|j: int| 0 <= j < k - 1 implies !names_header(#[trigger] ls.drop_first()[j], name) by {
            assert(ls.drop_first()[j] == ls[j + 1]);
        }
        assert(ls.drop_first()[k - 1] == ls[k]);
        lemma_find_at(ls.drop_first(), name, k - 1);
    }
}

/// The first line naming a header is found when some line names it.
proof fn lemma_find_some(ls: Seq<Seq<char>>, name: Seq<char>, k: int)
    requires
        0 <= k < ls.len(),
        names_header(ls[k], name),
    ensures
        find_header(ls, name) is Some,
    decreases k,
{
    if k > 0 && !names_header(ls[0], name) {
        assert(ls.drop_first()[k - 1] == ls[k]);
        lemma_find_some(ls.drop_first(), name, k - 1);
    }
}

/// The line `name: value` names the header `name`, for an ASCII name and value.
proof fn lemma_line_names(name: Seq<char>, value: Seq<char>)
    requires
        is_ascii_text(name),
        is_ascii_text(value),
    ensures
        names_header(name + ": "@ + value, name),
{
    reveal_strlit(": ");
    reveal_strlit(":");
    let line = name + ": "@ + value;
    assert(is_ascii_text(line)) by {
        assert forall|i: int| 0 <= i < line.len() implies (line[i] as u32) < 128 by {
            if i >= name.len() + 2 {
                assert(line[i] == value[i - name.len() - 2]);
            } else if i >= name.len() {
            } else {
                assert(line[i] == name[i]);
            }
        }
    }
    let lp = ascii_lowercase(name) + ":"@;
    let ll = ascii_lowercase(line);
    assert(lp =~= ll.subrange(0, lp.len() as int)) by {
        assert forall|i: int| 0 <= i < lp.len() implies lp[i] == ll[i] by {
            if i < name.len() {
                assert(line[i] == name[i]);
            } else {
                assert(line[i] == ':');
            }
        }
    }
    assert(line[name.len() as int] == ':');
}

/// Whether line `j` of one list is also line `j` of another.
pub open spec fn same_line(ls: Seq<Seq<char>>, ms: Seq<Seq<char>>, j: int) -> bool {
    j < ls.len() && ls[j] == ms[j]
}

/// Adding the line `name: value` before the blank line that ends the headers makes it one
/// of the lines.
proof fn lemma_added_before_blank(headers: Seq<char>, name: Seq<char>, value: Seq<char>, p: int) -> (k: int)
    requires
        first_occurrence(headers, "\r\n\r\n"@) == Some(p),
        !(name + ": "@ + value).contains('\n'),
    ensures
        0 <= k < lines_spec(with_header_added(headers, name, value)).len(),
        lines_spec(with_header_added(headers, name, value))[k] == name + ": "@ + value,
        forall|j: int| 0 <= j < k ==> #[trigger] same_line(lines_spec(headers), lines_spec(with_header_added(headers, name, value)), j),
{
    reveal_strlit("\r\n\r\n");
    reveal_strlit("\r\n");
    lemma_first_occurrence_found(headers, "\r\n\r\n"@);
    let line = name + ": "@ + value;
    let a = headers.take(p + 2);
    assert(headers.subrange(p, p + 4)[1] == '\n');
    assert(a.last() == '\n');
    let h2 = with_header_added(headers, name, value);
    assert(h2 =~= a + line + "\r\n"@ + headers.skip(p + 2));
    assert(headers =~= a + headers.skip(p + 2));
    lemma_prefix_lines(headers, a, headers.skip(p + 2));
    let k = lemma_written_line(h2, a, line, headers.skip(p + 2));
    assert forall|j: int| 0 <= j < k implies #[trigger] same_line(lines_spec(headers), lines_spec(h2), j) by {
        assert(lines_spec(h2)[j] == strip_cr(split_spec(a, '\n')[j]));
        assert(lines_spec(headers)[j] == strip_cr(split_spec(a, '\n')[j]));
    }
    k
}

/// Adding the line `name: value` at the end of headers with no blank line makes it one of
/// the lines.
proof fn lemma_added_at_end(headers: Seq<char>, name: Seq<char>, value: Seq<char>) -> (k: int)
    requires
        first_occurrence(headers, "\r\n\r\n"@) is None,
        !(name + ": "@ + value).contains('\n'),
    ensures
        0 <= k < lines_spec(with_header_added(headers, name, value)).len(),
        lines_spec(with_header_added(headers, name, value))[k] == name + ": "@ + value,
        forall|j: int| 0 <= j < k ==> #[trigger] same_line(lines_spec(headers), lines_spec(with_header_added(headers, name, value)), j),
{
    reveal_strlit("\r\n");
    reveal_strlit("\r\n\r\n");
    let line = name + ": "@ + value;
    let pre = if headers.len() > 0 && headers.last() != '\n' { headers + "\r\n"@ } else { headers };
    assert(pre.len() == 0 || pre.last() == '\n');
    let h2 = with_header_added(headers, name, value);
    assert(h2 =~= pre + line + "\r\n"@ + "\r\n"@);
    if headers.len() > 0 && headers.last() != '\n' {
        lemma_crlf_lines(headers);
    } else if headers.len() > 0 {
        assert(headers =~= headers + Seq::<char>::empty());
        lemma_prefix_lines(headers, headers, Seq::<char>::empty());
    }
    let k = lemma_written_line(h2, pre, line, "\r\n"@);
    assert forall|j: int| 0 <= j < k implies #[trigger] same_line(lines_spec(headers), lines_spec(h2), j) by {
        assert(lines_spec(h2)[j] == strip_cr(split_spec(pre, '\n')[j]));
        assert(lines_spec(headers)[j] == strip_cr(split_spec(pre, '\n')[j]));
    }
    k
}

/// When the header is missing, the text after adding it holds the line `name: value`.
proof fn lemma_injected_line(headers: Seq<char>, name: Seq<char>, value: Seq<char>) -> (k: int)
    requires
        !(name + ": "@ + value).contains('\n'),
    ensures
        0 <= k < lines_spec(with_header_added(headers, name, value)).len(),
        lines_spec(with_header_added(headers, name, value))[k] == name + ": "@ + value,
        forall|j: int| 0 <= j < k ==> #[trigger] same_line(lines_spec(headers), lines_spec(with_header_added(headers, name, value)), j),
{
    let k = match first_occurrence(headers, "\r\n\r\n"@) {
        Some(p) => lemma_added_before_blank(headers, name, value, p),
        None => lemma_added_at_end(headers, name, value),
    };
    k
}

/// Adding a header that is missing, then adding it again, is adding it once: after the first
/// call the header is found, so a second call leaves the text alone. Stated for an ASCII name
/// and value without line breaks (lowercasing is stated for ASCII text only).
pub proof fn lemma_inject_idempotent(headers: Seq<char>, name: Seq<char>, value: Seq<char>)
    requires
        is_ascii_text(name),
        is_ascii_text(value),
        !name.contains('\n'),
        !value.contains('\n'),
    ensures
        header_value_spec(injected_spec(headers, name, value), name) is Some,
        injected_spec(injected_spec(headers, name, value), name, value) == injected_spec(headers, name, value),
{
    if header_value_spec(headers, name) is None {
        reveal_strlit(": ");
        let line = name + ": "@ + value;
        assert(!line.contains('\n')) by {
            if line.contains('\n') {
                let i = choose|i: int| 0 <= i < line.len() && line[i] == '\n';
                if i >= name.len() + 2 {
                    assert(value[i - name.len() - 2] == '\n');
                } else if i < name.len() {
                    assert(name[i] == '\n');
                }
            }
        }
        let h2 = with_header_added(headers, name, value);
        let k = lemma_injected_line(headers, name, value);
        lemma_line_names(name, value);
        lemma_find_some(lines_spec(h2), name, k);
    }
}

/// The first colon of `name: value` is the one after the name, for a name without a colon.
proof fn lemma_colon_after_name(name: Seq<char>, value: Seq<char>)
    requires
        !name.contains(':'),
    ensures
        first_occurrence(name + ": "@ + value, seq![':']) == Some(name.len() as int),
{
    reveal_strlit(": ");
    let line = name + ": "@ + value;
    let c = name.len() as int;
    assert(line.subrange(c, c + 1) =~= seq![':']);
    assert forall|j: int| 0 <= j < c implies !#[trigger] occurs_at(line, seq![':'], j) by {
        if occurs_at(line, seq![':'], j) {
            assert(line.subrange(j, j + 1)[0] == line[j]);
            assert(line[j] == name[j]);
            assert(name[j] == ':');
        }
    }
    crate::text::lemma_first_occurrence(line, seq![':'], c);
}

/// A space then a value without whitespace at either end trims to the value.
proof fn lemma_trim_spaced(value: Seq<char>)
    requires
        value.len() > 0 ==> !spec_is_whitespace(value[0]) && !spec_is_whitespace(value.last()),
    ensures
        trim_spec(seq![' '] + value) == value,
{
    let s = seq![' '] + value;
    assert(s.drop_first() =~= value);
    assert(spec_is_whitespace(' '));
    assert(leading_ws(value) == 0);
    assert(leading_ws(s) == 1);
    assert(s.skip(1) =~= value);
    assert(trailing_ws(value) == 0);
    assert(value.take(value.len() as int) =~= value);
}

/// A line `name: value` gives `value` as its header value, for a name without a colon and a
/// value without whitespace at either end.
proof fn lemma_line_value(name: Seq<char>, value: Seq<char>)
    requires
        !name.contains(':'),
        value.len() > 0 ==> !spec_is_whitespace(value[0]) && !spec_is_whitespace(value.last()),
    ensures
        line_value(name + ": "@ + value) == value,
{
    lemma_colon_after_name(name, value);
    lemma_trim_spaced(value);
    lemma_after_colon(name, value);
}

/// What follows the colon of `name: value` is a space and the value.
proof fn lemma_after_colon(name: Seq<char>, value: Seq<char>)
    ensures
        (name + ": "@ + value).skip(name.len() as int + 1) == seq![' '] + value,
{
    reveal_strlit(": ");
    let line = name + ": "@ + value;
    let c = name.len() as int;
    assert forall|i: int| 0 <= i < value.len() + 1 implies #[trigger] line.skip(c + 1)[i] == (seq![' '] + value)[i] by {
        if i == 0 {
            assert(line[c + 1] == ": "@[1]);
        } else {
            assert(line[c + 1 + i] == value[i - 1]);
        }
    }
    assert(line.skip(c + 1) =~= seq![' '] + value);
}

/// Adding a missing header makes it found with the value given, for an ASCII name without
/// a colon or line break and an ASCII value without a line break or whitespace at either end.
pub proof fn lemma_inject_finds_value(headers: Seq<char>, name: Seq<char>, value: Seq<char>)
    requires
        header_value_spec(headers, name) is None,
        is_ascii_text(name),
        is_ascii_text(value),
        !name.contains('\n'),
        !name.contains(':'),
        !value.contains('\n'),
        value.len() > 0 ==> !spec_is_whitespace(value[0]) && !spec_is_whitespace(value.last()),
    ensures
        header_value_spec(injected_spec(headers, name, value), name) == Some(value),
{
    reveal_strlit(": ");
    let line = name + ": "@ + value;
    assert(!line.contains('\n')) by {
        if line.contains('\n') {
            let i = choose|i: int| 0 <= i < line.len() && line[i] == '\n';
            if i >= name.len() + 2 {
                assert(value[i - name.len() - 2] == '\n');
            } else if i < name.len() {
                assert(name[i] == '\n');
            }
        }
    }
    let h2 = with_header_added(headers, name, value);
    let k = lemma_injected_line(headers, name, value);
    lemma_find_none(lines_spec(headers), name);
    assert forall|j: int| 0 <= j < k implies !names_header(#[trigger] lines_spec(h2)[j], name) by {
        assert(same_line(lines_spec(headers), lines_spec(h2), j));
    }
    lemma_line_names(name, value);
    lemma_find_at(lines_spec(h2), name, k);
    lemma_line_value(name, value);
}

/// Whether every line break of a text is a CRLF: each `\n` follows a `\r`.
pub open spec fn crlf_only(s: Seq<char>) -> bool {
    forall|j: int| 0 <= j < s.len() && #[trigger] s[j] == '\n' ==> j > 0 && s[j - 1] == '\r'
}

/// Joining a piece in front of at least one more puts the separator after it.
proof fn lemma_join_cons(x: Seq<char>, r: Seq<Seq<char>>, sep: Seq<char>)
    requires
        r.len() >= 1,
    ensures
        join_spec(seq![x] + r, sep) == x + sep + join_spec(r, sep),
    decreases r.len(),
{
    let c = seq![x] + r;
    assert(c.len() >= 2);
    assert(c.last() == r.last());
    assert(join_spec(c, sep) == join_spec(c.drop_last(), sep) + sep + c.last());
    if r.len() == 1 {
        assert(c.drop_last() =~= seq![x]);
        assert(join_spec(seq![x], sep) == x);
        assert(join_spec(r, sep) == r[0]);
        assert(r.last() == r[0]);
    } else {
        assert(c.drop_last() =~= seq![x] + r.drop_last());
        lemma_join_cons(x, r.drop_last(), sep);
        assert(join_spec(r, sep) == join_spec(r.drop_last(), sep) + sep + r.last());
        assert(x + sep + join_spec(r.drop_last(), sep) + sep + r.last() =~= x + sep + (join_spec(r.drop_last(), sep) + sep + r.last()));
    }
}

/// The text before the first CRLF of a text whose line breaks are all CRLF has no line break.
proof fn lemma_piece_without_newline(h: Seq<char>, i: int)
    requires
        crlf_only(h),
        0 <= i <= h.len(),
        forall|j: int| 0 <= j < i ==> !#[trigger] occurs_at(h, "\r\n"@, j),
    ensures
        !h.take(i).contains('\n'),
{
    reveal_strlit("\r\n");
    let x = h.take(i);
    if x.contains('\n') {
        let j = choose|j: int| 0 <= j < x.len() && x[j] == '\n';
        assert(h[j] == '\n');
        assert(h.subrange(j - 1, j + 1) =~= "\r\n"@);
        assert(occurs_at(h, "\r\n"@, j - 1));
    }
}

/// What follows a CRLF of a text whose line breaks are all CRLF has only CRLF breaks too.
proof fn lemma_rest_crlf(h: Seq<char>, i: int)
    requires
        crlf_only(h),
        occurs_at(h, "\r\n"@, i),
    ensures
        crlf_only(h.skip(i + 2)),
{
    reveal_strlit("\r\n");
    let rest = h.skip(i + 2);
    assert(h.subrange(i, i + 2)[1] == h[i + 1]);
    assert(h[i + 1] == '\n');
    assert forall|j: int| 0 <= j < rest.len() && #[trigger] rest[j] == '\n' implies j > 0 && rest[j - 1] == '\r' by {
        assert(h[i + 2 + j] == '\n');
        if j == 0 {
            assert(h[i + 1] == '\r');
        } else {
            assert(rest[j - 1] == h[i + 1 + j]);
        }
    }
}

/// A text split at CRLF joins back to itself, and when all its line breaks are CRLF no
/// piece holds a line break.
proof fn lemma_crlf_pieces(h: Seq<char>)
    requires
        crlf_only(h),
    ensures
        split_str_spec(h, "\r\n"@).len() >= 1,
        join_spec(split_str_spec(h, "\r\n"@), "\r\n"@) == h,
        forall|k: int| 0 <= k < split_str_spec(h, "\r\n"@).len() ==> !(#[trigger] split_str_spec(h, "\r\n"@)[k]).contains('\n'),
    decreases h.len(),
{
    reveal_strlit("\r\n");
    let pat = "\r\n"@;
    lemma_first_occurrence_found(h, pat);
    match first_occurrence(h, pat) {
        Some(i) => {
            let x = h.take(i);
            let rest = h.skip(i + 2);
            lemma_rest_crlf(h, i);
            lemma_crlf_pieces(rest);
            lemma_piece_without_newline(h, i);
            let r = split_str_spec(rest, pat);
            assert(split_str_spec(h, pat) == seq![x] + r);
            lemma_join_cons(x, r, pat);
            assert(h.subrange(i, i + 2) == pat);
            assert(x + pat + rest =~= h);
            assert forall|k: int| 0 <= k < (seq![x] + r).len() implies !(#[trigger] (seq![x] + r)[k]).contains('\n') by {
                if k > 0 {
                    assert((seq![x] + r)[k] == r[k - 1]);
                }
            }
        },
        None => {
            assert(split_str_spec(h, pat) == seq![h]);
            assert(forall|j: int| !#[trigger] occurs_at(h, pat, j));
            lemma_piece_without_newline(h, h.len() as int);
            assert(h.take(h.len() as int) =~= h);
        },
    }
}

/// The `\n`-pieces of pieces without line breaks joined with CRLF: each piece, with the
/// `\r` of its CRLF, the last as it is.
proof fn lemma_split_of_join(ps: Seq<Seq<char>>)
    requires
        ps.len() >= 1,
        forall|k: int| 0 <= k < ps.len() ==> !(#[trigger] ps[k]).contains('\n'),
    ensures
        split_spec(join_spec(ps, "\r\n"@), '\n').len() == ps.len(),
        forall|k: int| 0 <= k < ps.len() - 1 ==> #[trigger] split_spec(join_spec(ps, "\r\n"@), '\n')[k] == ps[k].push('\r'),
        split_spec(join_spec(ps, "\r\n"@), '\n').last() == ps.last(),
    decreases ps.len(),
{
    reveal_strlit("\r\n");
    if ps.len() == 1 {
        lemma_split_no_sep(ps[0], '\n');
    } else {
        let d = ps.drop_last();
        assert forall|k: int| 0 <= k < d.len() implies !(#[trigger] d[k]).contains('\n') by {
            assert(d[k] == ps[k]);
        }
        lemma_split_of_join(d);
        let jd = join_spec(d, "\r\n"@);
        let sd = split_spec(jd, '\n');
        let s1 = jd + "\r\n"@;
        let jr = jd.push('\r');
        assert(s1.drop_last() =~= jr);
        assert(jr.drop_last() =~= jd);
        assert(split_spec(jr, '\n') == sd.update(sd.len() - 1, sd.last().push('\r')));
        assert(split_spec(s1, '\n') == split_spec(jr, '\n').push(Seq::<char>::empty()));
        assert(join_spec(ps, "\r\n"@) == s1 + ps.last());
        lemma_split_append(s1, ps.last(), '\n');
        assert(!ps.last().contains('\n')) by {
            assert(ps.last() == ps[ps.len() - 1]);
        }
        lemma_split_no_sep(ps.last(), '\n');
        let q = split_spec(jr, '\n');
        assert(split_spec(s1, '\n').drop_last() =~= q);
        assert forall|k: int| 0 <= k < ps.len() - 1 implies #[trigger] split_spec(join_spec(ps, "\r\n"@), '\n')[k] == ps[k].push('\r') by {
            assert(split_spec(join_spec(ps, "\r\n"@), '\n')[k] == q[k]);
            if k < d.len() - 1 {
                assert(sd[k] == d[k].push('\r'));
            } else {
                assert(sd.last() == d.last());
            }
            assert(d[k] == ps[k]);
        }
    }
}

/// The lines of pieces without line breaks joined with CRLF are the pieces (a last empty
/// piece gives no line).
proof fn lemma_lines_of_join(ps: Seq<Seq<char>>)
    requires
        ps.len() >= 1,
        forall|k: int| 0 <= k < ps.len() ==> !(#[trigger] ps[k]).contains('\n'),
    ensures
        lines_spec(join_spec(ps, "\r\n"@)).len() <= ps.len(),
        forall|k: int| 0 <= k < lines_spec(join_spec(ps, "\r\n"@)).len() ==> #[trigger] lines_spec(join_spec(ps, "\r\n"@))[k] == ps[k],
        forall|k: int| 0 <= k < ps.len() && (k < ps.len() - 1 || ps[k].len() > 0) ==> k < lines_spec(join_spec(ps, "\r\n"@)).len(),
{
    lemma_split_of_join(ps);
    let p = split_spec(join_spec(ps, "\r\n"@), '\n');
    assert forall|k: int| 0 <= k < lines_spec(join_spec(ps, "\r\n"@)).len() implies #[trigger] lines_spec(join_spec(ps, "\r\n"@))[k] == ps[k] by {
        if k < ps.len() - 1 {
            assert(p[k] == ps[k].push('\r'));
            assert(strip_cr(ps[k].push('\r')) =~= ps[k]);
        } else {
            assert(p[k] == ps.last());
        }
    }
}

/// A line that names the header is found.
proof fn lemma_find_some_exists(ls: Seq<Seq<char>>, name: Seq<char>) -> (k: int)
    requires
        find_header(ls, name) is Some,
    ensures
        0 <= k < ls.len(),
        names_header(ls[k], name),
    decreases ls.len(),
{
    if names_header(ls[0], name) {
        0
    } else {
        let k = lemma_find_some_exists(ls.drop_first(), name);
        assert(ls.drop_first()[k] == ls[k + 1]);
        k + 1
    }
}

/// A header found in text whose line breaks are all CRLF is a replace target among the
/// text's CRLF pieces.
proof fn lemma_present_is_target(headers: Seq<char>, name: Seq<char>)
    requires
        header_value_spec(headers, name) is Some,
        crlf_only(headers),
    ensures
        first_target(split_str_spec(headers, "\r\n"@), name) is Some,
{
    let ps = split_str_spec(headers, "\r\n"@);
    lemma_crlf_pieces(headers);
    lemma_lines_of_join(ps);
    let j = lemma_find_some_exists(lines_spec(headers), name);
    assert(lines_spec(headers)[j] == ps[j]);
    lemma_first_target_bounds(ps, name);
    assert(ps[j].contains(':'));
    assert(is_replace_target(ps[j], name));
}

/// Replacing the first target piece by `name: value` makes the header found with `value`.
proof fn lemma_found_after_update(ps: Seq<Seq<char>>, name: Seq<char>, value: Seq<char>, i: int)
    requires
        ps.len() >= 1,
        forall|k: int| 0 <= k < ps.len() ==> !(#[trigger] ps[k]).contains('\n'),
        first_target(ps, name) == Some(i),
        is_ascii_text(name),
        is_ascii_text(value),
        !(name + ": "@ + value).contains('\n'),
        !name.contains(':'),
        value.len() > 0 ==> !spec_is_whitespace(value[0]) && !spec_is_whitespace(value.last()),
    ensures
        find_header(lines_spec(join_spec(ps.update(i, name + ": "@ + value), "\r\n"@)), name) == Some(value),
{
    reveal_strlit(": ");
    lemma_first_target_bounds(ps, name);
    let line = name + ": "@ + value;
    let ps2 = ps.update(i, line);
    assert forall|k: int| 0 <= k < ps2.len() implies !(#[trigger] ps2[k]).contains('\n') by {
        if k != i {
            assert(ps2[k] == ps[k]);
        }
    }
    lemma_lines_of_join(ps2);
    let ls2 = lines_spec(join_spec(ps2, "\r\n"@));
    assert(line.len() > 0);
    assert(ps2[i] == line);
    assert(ps2[i].len() > 0);
    assert(i < ls2.len());
    assert(ls2[i] == ps2[i]);
    assert forall|k: int| 0 <= k < i implies !names_header(#[trigger] ls2[k], name) by {
        assert(ls2[k] == ps2[k]);
        assert(ps2[k] == ps[k]);
        assert(!is_replace_target(ps[k], name));
    }
    lemma_line_names(name, value);
    lemma_find_at(ls2, name, i);
    lemma_line_value(name, value);
}

/// After replacing a header that is present, it is found with the new value, for header text
/// whose line breaks are all CRLF, an ASCII name without a colon or line break, and an ASCII
/// value without a line break or whitespace at either end.
pub proof fn lemma_replace_then_found(headers: Seq<char>, name: Seq<char>, value: Seq<char>)
    requires
        header_value_spec(headers, name) is Some,
        crlf_only(headers),
        is_ascii_text(name),
        is_ascii_text(value),
        !name.contains('\n'),
        !name.contains(':'),
        !value.contains('\n'),
        value.len() > 0 ==> !spec_is_whitespace(value[0]) && !spec_is_whitespace(value.last()),
    ensures
        header_value_spec(replaced_spec(headers, name, value), name) == Some(value),
{
    reveal_strlit(": ");
    let ps = split_str_spec(headers, "\r\n"@);
    lemma_crlf_pieces(headers);
    lemma_present_is_target(headers, name);
    let i = first_target(ps, name)->0;
    let line = name + ": "@ + value;
    assert(!line.contains('\n')) by {
        if line.contains('\n') {
            let t = choose|t: int| 0 <= t < line.len() && line[t] == '\n';
            if t >= name.len() + 2 {
                assert(value[t - name.len() - 2] == '\n');
            } else if t < name.len() {
                assert(name[t] == '\n');
            }
        }
    }
    lemma_found_after_update(ps, name, value, i);
}

} // verus!
