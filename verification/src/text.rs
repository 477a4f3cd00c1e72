//! The document's character-level model: lines as sequences of characters,
//! the split of a file's content into lines, and the joining of lines back
//! into terminator-terminated content.
//!
//! A document is a sequence of lines; a line never contains the terminator
//! `'\n'`.  Content is split on each terminator, and a final terminator acts
//! as a separator, not as content: no trailing empty line is produced for it.

use vstd::prelude::*;

verus! {

/// The mathematical value of a vector of lines: one character sequence per line.
pub open spec fn lines_view(v: Vec<Vec<char>>) -> Seq<Seq<char>> {
    Seq::new(v@.len(), |i: int| v@[i]@)
}

/// A line is well formed when it holds no line terminator.
pub open spec fn line_ok(l: Seq<char>) -> bool {
    forall|i: int| 0 <= i < l.len() ==> l[i] != '\n'
}

/// The lines of a piece of content, split on each `'\n'`.
///
/// `""` has no lines; `"\n"` has one empty line; `"a\nb"` and `"a\nb\n"`
/// both have the lines `"a"`, `"b"`.
pub open spec fn split_content(s: Seq<char>) -> Seq<Seq<char>>
    decreases s.len(),
{
    if s.len() == 0 {
        Seq::empty()
    } else if s[0] == '\n' {
        split_content(s.skip(1)).insert(0, Seq::empty())
    } else {
        let rest = split_content(s.skip(1));
        if rest.len() == 0 {
            seq![seq![s[0]]]
        } else {
            rest.update(0, rest[0].insert(0, s[0]))
        }
    }
}

/// The content written for a sequence of lines: every line, the last one
/// included, is followed by one terminator.
pub open spec fn join_content(lines: Seq<Seq<char>>) -> Seq<char>
    decreases lines.len(),
{
    if lines.len() == 0 {
        Seq::empty()
    } else {
        lines[0] + seq!['\n'] + join_content(lines.skip(1))
    }
}

/// Every line produced by a split is free of terminators.
pub proof fn lemma_split_content_lines_ok(s: Seq<char>)
    ensures
        forall|i: int| 0 <= i < split_content(s).len() ==> line_ok(#[trigger] split_content(s)[i]),
    decreases s.len(),
{
    if s.len() == 0 {
    } else {
        lemma_split_content_lines_ok(s.skip(1));
        let rest = split_content(s.skip(1));
        if s[0] == '\n' {
            assert forall|i: int| 0 <= i < split_content(s).len() implies line_ok(
                #[trigger] split_content(s)[i],
            ) by {
                if i > 0 {
                    assert(split_content(s)[i] == rest[i - 1]);
                }
            }
        } else {
            if rest.len() == 0 {
                assert forall|i: int| 0 <= i < split_content(s).len() implies line_ok(
                    #[trigger] split_content(s)[i],
                ) by {
                    assert(split_content(s)[i] =~= seq![s[0]]);
                }
            } else {
                assert forall|i: int| 0 <= i < split_content(s).len() implies line_ok(
                    #[trigger] split_content(s)[i],
                ) by {
                    if i == 0 {
                        assert(split_content(s)[0] == rest[0].insert(0, s[0]));
                        assert(forall|j: int|
                            0 <= j < rest[0].insert(0, s[0]).len() ==> rest[0].insert(0, s[0])[j]
                                != '\n');
                    } else {
                        assert(split_content(s)[i] == rest[i]);
                    }
                }
            }
        }
    }
}

/// Splitting content that begins with one terminator-ended line `l` yields
/// `l` followed by the lines of the remaining content.
proof fn lemma_split_line_prefix(l: Seq<char>, t: Seq<char>)
    requires
        line_ok(l),
    ensures
        split_content(l + seq!['\n'] + t) == split_content(t).insert(0, l),
    decreases l.len(),
{
    let s = l + seq!['\n'] + t;
    if l.len() == 0 {
        assert(s =~= seq!['\n'] + t);
        assert(s[0] == '\n');
        assert(s.skip(1) =~= t);
        assert(split_content(s) == split_content(t).insert(0, Seq::empty()));
        assert(Seq::<char>::empty() =~= l);
    } else {
        assert(s[0] == l[0]);
        assert(l[0] != '\n');
        assert(s.skip(1) =~= l.skip(1) + seq!['\n'] + t);
        lemma_split_line_prefix(l.skip(1), t);
        let rest = split_content(s.skip(1));
        assert(rest == split_content(t).insert(0, l.skip(1)));
        assert(rest.len() > 0);
        assert(rest[0] == l.skip(1));
        assert(split_content(s) == rest.update(0, l.skip(1).insert(0, l[0])));
        assert(l.skip(1).insert(0, l[0]) =~= l);
        assert(rest.update(0, l) =~= split_content(t).insert(0, l));
    }
}

/// Round trip: joining any terminator-free lines and splitting the result
/// reproduces the lines exactly.
pub proof fn lemma_split_join_round_trip(lines: Seq<Seq<char>>)
    requires
        forall|i: int| 0 <= i < lines.len() ==> line_ok(#[trigger] lines[i]),
    ensures
        split_content(join_content(lines)) == lines,
    decreases lines.len(),
{
    if lines.len() == 0 {
    } else {
        lemma_split_join_round_trip(lines.skip(1));
        lemma_split_line_prefix(lines[0], join_content(lines.skip(1)));
        assert(split_content(join_content(lines)) == lines.skip(1).insert(0, lines[0]));
        assert(lines.skip(1).insert(0, lines[0]) =~= lines);
    }
}

/// Joining one more line appends it and one terminator.
proof fn lemma_join_content_push(lines: Seq<Seq<char>>, l: Seq<char>)
    ensures
        join_content(lines.push(l)) == join_content(lines) + l + seq!['\n'],
    decreases lines.len(),
{
    if lines.len() == 0 {
        assert(lines.push(l)[0] == l);
        assert(lines.push(l).skip(1) =~= Seq::<Seq<char>>::empty());
        assert(join_content(Seq::<Seq<char>>::empty()) =~= Seq::<char>::empty());
        assert(join_content(lines.push(l)) =~= l + seq!['\n'] + Seq::<char>::empty());
        assert(join_content(lines.push(l)) =~= join_content(lines) + l + seq!['\n']);
    } else {
        assert(lines.push(l).skip(1) =~= lines.skip(1).push(l));
        lemma_join_content_push(lines.skip(1), l);
        assert(lines.push(l)[0] == lines[0]);
        assert(join_content(lines.push(l)) =~= join_content(lines) + l + seq!['\n']);
    }
}

/// How a partially read line combines with the lines of the content that
/// follows it: it extends the first following line, or stands alone at the
/// end of the content.
spec fn glue(cur: Seq<char>, rest: Seq<Seq<char>>) -> Seq<Seq<char>> {
    if rest.len() == 0 {
        if cur.len() == 0 {
            Seq::empty()
        } else {
            seq![cur]
        }
    } else {
        rest.update(0, cur + rest[0])
    }
}

/// Splits a piece of content into its lines.
pub fn split_lines(content: &Vec<char>) -> (res: Vec<Vec<char>>)
    ensures
        lines_view(res) == split_content(content@),
{
    let ghost whole: Seq<char> = content@;
    let mut res: Vec<Vec<char>> = Vec::new();
    let mut cur: Vec<char> = Vec::new();
    let mut i: usize = 0;
    proof {
        assert(whole.skip(0) =~= whole);
        let rest = split_content(whole);
        if rest.len() == 0 {
            assert(glue(cur@, rest) =~= rest);
        } else {
            assert(cur@ + rest[0] =~= rest[0]);
            assert(glue(cur@, rest) =~= rest);
        }
        assert(lines_view(res) + glue(cur@, rest) =~= rest);
    }
    while i < content.len()
        invariant
            i <= content@.len(),
            content@ == whole,
            split_content(whole) == lines_view(res) + glue(cur@, split_content(
                whole.skip(i as int),
            )),
        decreases content@.len() - i,
    {
        let ghost pre_res = lines_view(res);
        let ghost pre_cur = cur@;
        let ghost suffix = whole.skip(i as int);
        let ghost next_suffix = whole.skip(i as int + 1);
        proof {
            assert(suffix.len() > 0);
            assert(suffix[0] == whole[i as int]);
            assert(suffix.skip(1) =~= next_suffix);
        }
        let ch = content[i];
        if ch == '\n' {
            proof {
                assert(split_content(suffix) == split_content(next_suffix).insert(0, Seq::empty()));
                lemma_glue_newline(pre_cur, split_content(next_suffix));
            }
            res.push(cur);
            cur = Vec::new();
            proof {
                assert(lines_view(res) =~= pre_res.push(pre_cur));
                assert(lines_view(res) + glue(cur@, split_content(next_suffix)) =~= pre_res + (
                seq![pre_cur] + glue(cur@, split_content(next_suffix))));
                assert(lines_view(res) + glue(cur@, split_content(next_suffix)) =~= split_content(
                    whole,
                ));
            }
        } else {
            proof {
                let rest = split_content(next_suffix);
                if rest.len() == 0 {
                    assert(split_content(suffix) =~= seq![seq![suffix[0]]]);
                    assert(pre_cur + seq![suffix[0]] =~= pre_cur.push(suffix[0]));
                    assert(glue(pre_cur, split_content(suffix)) =~= seq![pre_cur.push(suffix[0])]);
                    assert(glue(pre_cur.push(suffix[0]), rest) =~= seq![pre_cur.push(suffix[0])]);
                } else {
                    assert(split_content(suffix) == rest.update(0, rest[0].insert(0, suffix[0])));
                    assert(pre_cur + rest[0].insert(0, suffix[0]) =~= (pre_cur.push(suffix[0]))
                        + rest[0]);
                    assert(glue(pre_cur, split_content(suffix)) =~= glue(
                        pre_cur.push(suffix[0]),
                        rest,
                    ));
                }
            }
            cur.push(ch);
            proof {
                assert(cur@ =~= pre_cur.push(whole[i as int]));
                assert(lines_view(res) =~= pre_res);
            }
        }
        i += 1;
    }
    proof {
        assert(whole.skip(i as int) =~= Seq::<char>::empty());
        assert(split_content(whole.skip(i as int)) =~= Seq::<Seq<char>>::empty());
    }
    if cur.len() > 0 {
        let ghost pre_res = lines_view(res);
        let ghost pre_cur = cur@;
        proof {
            assert(glue(pre_cur, Seq::empty()) =~= seq![pre_cur]);
        }
        res.push(cur);
        proof {
            assert(lines_view(res) =~= pre_res.push(pre_cur));
            assert(pre_res.push(pre_cur) =~= pre_res + seq![pre_cur]);
            assert(lines_view(res) =~= split_content(whole));
        }
    } else {
        proof {
            assert(glue(cur@, Seq::empty()) =~= Seq::<Seq<char>>::empty());
            assert(lines_view(res) + Seq::<Seq<char>>::empty() =~= lines_view(res));
        }
    }
    res
}

proof fn lemma_glue_newline(cur: Seq<char>, rest: Seq<Seq<char>>)
    ensures
        glue(cur, rest.insert(0, Seq::empty())) =~= seq![cur] + glue(Seq::empty(), rest),
{
    let with_empty = rest.insert(0, Seq::<char>::empty());
    assert(with_empty.len() > 0);
    assert(with_empty[0] =~= Seq::<char>::empty());
    assert(cur + Seq::<char>::empty() =~= cur);
    if rest.len() == 0 {
        assert(glue(cur, with_empty) =~= seq![cur]);
    } else {
        assert(Seq::<char>::empty() + rest[0] =~= rest[0]);
        assert(glue(Seq::<char>::empty(), rest) =~= rest);
        assert(glue(cur, with_empty) =~= seq![cur] + rest);
    }
}

/// Joins lines into content: every line is followed by one terminator.
pub fn join_lines(lines: &Vec<Vec<char>>) -> (res: Vec<char>)
    ensures
        res@ == join_content(lines_view(*lines)),
{
    let ghost dv = lines_view(*lines);
    let mut res: Vec<char> = Vec::new();
    let mut i: usize = 0;
    proof {
        assert(dv.take(0) =~= Seq::<Seq<char>>::empty());
        assert(res@ =~= join_content(dv.take(0)));
    }
    while i < lines.len()
        invariant
            i <= lines@.len(),
            lines_view(*lines) == dv,
            res@ == join_content(dv.take(i as int)),
        decreases lines@.len() - i,
    {
        let line = &lines[i];
        proof {
            assert(line@ == dv[i as int]);
        }
        let mut j: usize = 0;
        proof {
            assert(dv[i as int].take(0) =~= Seq::<char>::empty());
            assert(res@ + Seq::<char>::empty() =~= res@);
        }
        while j < line.len()
            invariant
                j <= line@.len(),
                line@ == dv[i as int],
                i < dv.len(),
                res@ == join_content(dv.take(i as int)) + dv[i as int].take(j as int),
            decreases line@.len() - j,
        {
            res.push(line[j]);
            proof {
                assert(dv[i as int].take(j as int + 1) =~= dv[i as int].take(j as int).push(
                    line@[j as int],
                ));
                assert(res@ =~= join_content(dv.take(i as int)) + dv[i as int].take(j as int + 1));
            }
            j += 1;
        }
        res.push('\n');
        proof {
            assert(dv[i as int].take(line@.len() as int) =~= dv[i as int]);
            lemma_join_content_push(dv.take(i as int), dv[i as int]);
            assert(dv.take(i as int).push(dv[i as int]) =~= dv.take(i as int + 1));
            assert(res@ =~= join_content(dv.take(i as int + 1)));
        }
        i += 1;
    }
    proof {
        assert(dv.take(i as int) =~= dv);
    }
    res
}

/// `needle` occurs in `hay` starting at index `i`.
pub open spec fn occurs_at(hay: Seq<char>, needle: Seq<char>, i: int) -> bool {
    0 <= i && i + needle.len() <= hay.len() && hay.subrange(i, i + needle.len()) == needle
}

/// `hay` contains `needle` as a contiguous subsequence.
pub open spec fn contains_sub(hay: Seq<char>, needle: Seq<char>) -> bool {
    exists|i: int| occurs_at(hay, needle, i)
}

/// The first index at which `needle` occurs in `hay`, if any.
/// An empty needle occurs at index 0 of every line.
pub fn find_in_line(hay: &Vec<char>, needle: &Vec<char>) -> (res: Option<usize>)
    ensures
        match res {
            Some(i) => occurs_at(hay@, needle@, i as int) && forall|j: int|
                0 <= j < i ==> !occurs_at(hay@, needle@, j),
            None => !contains_sub(hay@, needle@),
        },
{
    let n = needle.len();
    let h = hay.len();
    if n > h {
        proof {
            assert(forall|i: int| !occurs_at(hay@, needle@, i));
        }
        return None;
    }
    if n == 0 {
        proof {
            assert(hay@.subrange(0, 0) =~= needle@);
            assert(occurs_at(hay@, needle@, 0));
        }
        return Some(0);
    }
    let mut i: usize = 0;
    while i <= h - n
        invariant
            n == needle@.len(),
            h == hay@.len(),
            1 <= n <= h,
            i <= h - n + 1,
            forall|j: int| 0 <= j < i ==> !occurs_at(hay@, needle@, j),
        decreases h - i,
    {
        let mut j: usize = 0;
        let mut matched = true;
        while j < n
            invariant
                n == needle@.len(),
                h == hay@.len(),
                i + n <= h,
                j <= n,
                matched ==> forall|k: int| 0 <= k < j ==> hay@[i + k] == needle@[k],
                !matched ==> !occurs_at(hay@, needle@, i as int),
            decreases n - j,
        {
            if hay[i + j] != needle[j] {
                proof {
                    assert(!occurs_at(hay@, needle@, i as int)) by {
                        if occurs_at(hay@, needle@, i as int) {
                            assert(hay@.subrange(i as int, i + n)[j as int] == needle@[j as int]);
                            assert(hay@[i + j] == needle@[j as int]);
                        }
                    }
                }
                matched = false;
                j = n;
            } else {
                j += 1;
            }
        }
        if matched {
            proof {
                assert(hay@.subrange(i as int, i + n) =~= needle@);
            }
            return Some(i);
        }
        i += 1;
    }
    proof {
        assert forall|j: int| !occurs_at(hay@, needle@, j) by {
            if occurs_at(hay@, needle@, j) {
                assert(0 <= j && j + n <= h);
                assert(j < i);
            }
        }
    }
    None
}

/// A decimal digit.
pub open spec fn is_dec_digit(c: char) -> bool {
    48 <= c as u32 && c as u32 <= 57
}

/// A non-empty run of decimal digits.
pub open spec fn is_dec_digits(s: Seq<char>) -> bool {
    s.len() > 0 && forall|i: int| 0 <= i < s.len() ==> is_dec_digit(#[trigger] s[i])
}

/// The numeric value of a run of decimal digits, most significant first.
pub open spec fn dec_value(s: Seq<char>) -> int
    decreases s.len(),
{
    if s.len() == 0 {
        0
    } else {
        dec_value(s.drop_last()) * 10 + (s.last() as u32 - 48)
    }
}

/// The value of a digit run never shrinks as digits are appended.
proof fn lemma_dec_value_take_mono(s: Seq<char>, k: int)
    requires
        0 <= k <= s.len(),
        forall|i: int| 0 <= i < s.len() ==> is_dec_digit(#[trigger] s[i]),
    ensures
        dec_value(s.take(k)) <= dec_value(s),
        dec_value(s) >= 0,
    decreases s.len() - k,
{
    if k == s.len() {
        assert(s.take(k) =~= s);
        lemma_dec_value_nonneg(s);
    } else {
        lemma_dec_value_take_mono(s, k + 1);
        lemma_dec_value_nonneg(s.take(k));
        assert(s.take(k + 1).drop_last() =~= s.take(k));
        assert(s.take(k + 1).last() == s[k]);
        assert(dec_value(s.take(k + 1)) == dec_value(s.take(k)) * 10 + (s[k] as u32 - 48));
    }
}

proof fn lemma_dec_value_nonneg(s: Seq<char>)
    requires
        forall|i: int| 0 <= i < s.len() ==> is_dec_digit(#[trigger] s[i]),
    ensures
        dec_value(s) >= 0,
    decreases s.len(),
{
    if s.len() > 0 {
        assert(s.drop_last() =~= s.take(s.len() - 1));
        assert(forall|i: int|
            0 <= i < s.drop_last().len() ==> is_dec_digit(#[trigger] s.drop_last()[i]));
        lemma_dec_value_nonneg(s.drop_last());
        assert(is_dec_digit(s.last()));
    }
}

/// Reads an unsigned decimal number, as a line-number prompt types it: an
/// optional leading `'+'`, then one or more digits.  Returns the value when
/// the form is right and the value fits, and nothing otherwise.
pub fn parse_u16(s: &Vec<char>) -> (res: Option<u16>)
    ensures
        ({
            let body = if s@.len() > 0 && s@[0] == '+' {
                s@.skip(1)
            } else {
                s@
            };
            match res {
                Some(n) => is_dec_digits(body) && dec_value(body) == n,
                None => !(is_dec_digits(body) && dec_value(body) <= u16::MAX),
            }
        }),
{
    let start: usize = if s.len() > 0 && s[0] == '+' {
        1
    } else {
        0
    };
    let ghost body = if start == 1 {
        s@.skip(1)
    } else {
        s@
    };
    proof {
        assert(s@.skip(0) =~= s@);
        assert(body == s@.skip(start as int));
    }
    if s.len() == start {
        proof {
            assert(body.len() == 0);
        }
        return None;
    }
    let mut acc: u32 = 0;
    let mut i: usize = start;
    while i < s.len()
        invariant
            start <= i <= s@.len(),
            start < s@.len(),
            start == (if s@.len() > 0 && s@[0] == '+' {
                1int
            } else {
                0int
            }),
            body == (if s@.len() > 0 && s@[0] == '+' {
                s@.skip(1)
            } else {
                s@
            }),
            body == s@.skip(start as int),
            forall|k: int| 0 <= k < i - start ==> is_dec_digit(#[trigger] body[k]),
            acc == dec_value(body.take(i - start)),
            acc <= u16::MAX as u32,
        decreases s@.len() - i,
    {
        let c = s[i];
        let cv = c as u32;
        proof {
            assert(body[i - start] == s@[i as int]);
        }
        if cv < 48 || cv > 57 {
            proof {
                assert(!is_dec_digit(body[i - start]));
                assert(!is_dec_digits(body));
            }
            return None;
        }
        let d = cv - 48;
        let next = acc * 10 + d;
        proof {
            assert(body.take(i - start + 1).drop_last() =~= body.take(i - start));
            assert(body.take(i - start + 1).last() == body[i - start]);
            assert(dec_value(body.take(i - start + 1)) == dec_value(body.take(i - start)) * 10 + (
            body[i - start] as u32 - 48));
        }
        if next > u16::MAX as u32 {
            proof {
                if is_dec_digits(body) {
                    lemma_dec_value_take_mono(body, i - start + 1);
                    assert(dec_value(body) >= dec_value(body.take(i - start + 1)));
                    assert(dec_value(body) > u16::MAX);
                }
            }
            return None;
        }
        acc = next;
        i += 1;
    }
    proof {
        assert(body.take(i - start) =~= body);
        assert(is_dec_digits(body));
    }
    Some(acc as u16)
}

/// A character discarded by input trimming.
pub open spec fn is_blank(c: char) -> bool {
    c == ' ' || c == '\t' || c == '\n' || c == '\r'
}

/// `s` without its leading blanks.
pub open spec fn drop_leading_blanks(s: Seq<char>) -> Seq<char>
    decreases s.len(),
{
    if s.len() > 0 && is_blank(s[0]) {
        drop_leading_blanks(s.skip(1))
    } else {
        s
    }
}

/// `s` without its trailing blanks.
pub open spec fn drop_trailing_blanks(s: Seq<char>) -> Seq<char>
    decreases s.len(),
{
    if s.len() > 0 && is_blank(s.last()) {
        drop_trailing_blanks(s.drop_last())
    } else {
        s
    }
}

/// `s` without leading and trailing blanks.
pub open spec fn trimmed(s: Seq<char>) -> Seq<char> {
    drop_trailing_blanks(drop_leading_blanks(s))
}

proof fn lemma_drop_leading_blanks_skip(s: Seq<char>, k: int)
    requires
        0 <= k <= s.len(),
        forall|j: int| 0 <= j < k ==> is_blank(#[trigger] s[j]),
        k < s.len() ==> !is_blank(s[k]),
    ensures
        drop_leading_blanks(s) == s.skip(k),
    decreases k,
{
    if k == 0 {
        assert(s.skip(0) =~= s);
    } else {
        assert(is_blank(s[0]));
        lemma_drop_leading_blanks_skip(s.skip(1), k - 1);
        assert(s.skip(1).skip(k - 1) =~= s.skip(k));
    }
}

proof fn lemma_drop_trailing_blanks_take(s: Seq<char>, e: int)
    requires
        0 <= e <= s.len(),
        forall|j: int| e <= j < s.len() ==> is_blank(#[trigger] s[j]),
        e > 0 ==> !is_blank(s[e - 1]),
    ensures
        drop_trailing_blanks(s) == s.take(e),
    decreases s.len() - e,
{
    if e == s.len() {
        assert(s.take(e) =~= s);
    } else {
        assert(is_blank(s.last()));
        lemma_drop_trailing_blanks_take(s.drop_last(), e);
        assert(s.drop_last() =~= s.take(s.len() - 1));
        assert(s.drop_last().take(e) =~= s.take(e));
    }
}

/// Removes leading and trailing blanks, as prompt input is normalized.
pub fn trim(s: &Vec<char>) -> (res: Vec<char>)
    ensures
        res@ == trimmed(s@),
{
    let len = s.len();
    let mut start: usize = 0;
    while start < len && (s[start] == ' ' || s[start] == '\t' || s[start] == '\n' || s[start]
        == '\r')
        invariant
            len == s@.len(),
            start <= len,
            forall|j: int| 0 <= j < start ==> is_blank(#[trigger] s@[j]),
        decreases len - start,
    {
        start += 1;
    }
    proof {
        lemma_drop_leading_blanks_skip(s@, start as int);
    }
    let mut end: usize = len;
    while end > start && (s[end - 1] == ' ' || s[end - 1] == '\t' || s[end - 1] == '\n' || s[end
        - 1] == '\r')
        invariant
            len == s@.len(),
            start <= end <= len,
            forall|j: int| end <= j < len ==> is_blank(#[trigger] s@[j]),
        decreases end,
    {
        end -= 1;
    }
    proof {
        let inner = s@.skip(start as int);
        assert(forall|j: int|
            end - start <= j < inner.len() ==> is_blank(#[trigger] inner[j]) && inner[j] == s@[j
                + start]);
        if end > start {
            assert(inner[end - start - 1] == s@[end - 1]);
        }
        lemma_drop_trailing_blanks_take(inner, end - start);
    }
    let mut res: Vec<char> = Vec::new();
    let mut k: usize = start;
    while k < end
        invariant
            start <= k <= end <= s@.len(),
            res@ == s@.subrange(start as int, k as int),
        decreases end - k,
    {
        res.push(s[k]);
        proof {
            assert(s@.subrange(start as int, k + 1) =~= s@.subrange(start as int, k as int).push(
                s@[k as int],
            ));
        }
        k += 1;
    }
    proof {
        assert(s@.subrange(start as int, end as int) =~= s@.skip(start as int).take(
            end - start as int,
        ));
    }
    res
}

/// The name part of a path: the characters after the last `'/'`.
pub open spec fn basename_of(s: Seq<char>) -> Seq<char>
    decreases s.len(),
{
    if s.len() == 0 {
        Seq::empty()
    } else if s.last() == '/' {
        Seq::empty()
    } else {
        basename_of(s.drop_last()).push(s.last())
    }
}

proof fn lemma_basename_skip(s: Seq<char>, k: int)
    requires
        0 <= k <= s.len(),
        forall|j: int| k <= j < s.len() ==> s[j] != '/',
        k > 0 ==> s[k - 1] == '/',
    ensures
        basename_of(s) == s.skip(k),
    decreases s.len() - k,
{
    if k == s.len() {
        assert(s.skip(k) =~= Seq::<char>::empty());
        if s.len() > 0 {
            assert(s.last() == s[k - 1]);
        }
    } else {
        assert(s.last() == s[s.len() - 1]);
        assert(s.last() != '/');
        lemma_basename_skip(s.drop_last(), k);
        assert(s.drop_last() =~= s.take(s.len() - 1));
        assert(basename_of(s) == s.drop_last().skip(k).push(s.last()));
        assert(s.drop_last().skip(k).push(s.last()) =~= s.skip(k));
    }
}

/// Extracts the name part of a path: what follows the last `'/'`.
pub fn basename(s: &Vec<char>) -> (res: Vec<char>)
    ensures
        res@ == basename_of(s@),
{
    let len = s.len();
    let mut k: usize = len;
    while k > 0 && s[k - 1] != '/'
        invariant
            k <= len,
            len == s@.len(),
            forall|j: int| k <= j < len ==> s@[j] != '/',
        decreases k,
    {
        k -= 1;
    }
    proof {
        lemma_basename_skip(s@, k as int);
    }
    let mut res: Vec<char> = Vec::new();
    let mut i: usize = k;
    while i < len
        invariant
            k <= i <= len,
            len == s@.len(),
            res@ == s@.subrange(k as int, i as int),
        decreases len - i,
    {
        res.push(s[i]);
        proof {
            assert(s@.subrange(k as int, i + 1) =~= s@.subrange(k as int, i as int).push(
                s@[i as int],
            ));
        }
        i += 1;
    }
    proof {
        assert(s@.subrange(k as int, len as int) =~= s@.skip(k as int));
    }
    res
}

/// The character with an ASCII capital letter lowered; anything else is
/// kept as it is.
pub open spec fn lower_char(c: char) -> char {
    if 65 <= c as u32 && c as u32 <= 90 {
        (c as u32 + 32) as char
    } else {
        c
    }
}

/// `s` with every ASCII capital letter lowered.
pub open spec fn lower_of(s: Seq<char>) -> Seq<char> {
    Seq::new(s.len(), |i: int| lower_char(s[i]))
}

/// Lowers ASCII capital letters, as prompt answers are normalized.
pub fn to_lower(s: &Vec<char>) -> (res: Vec<char>)
    ensures
        res@ == lower_of(s@),
{
    let mut res: Vec<char> = Vec::new();
    let mut i: usize = 0;
    while i < s.len()
        invariant
            i <= s@.len(),
            res@.len() == i,
            forall|j: int| 0 <= j < i ==> res@[j] == lower_char(#[trigger] s@[j]),
        decreases s@.len() - i,
    {
        let c = s[i];
        let v = c as u32;
        let lc: char = if v >= 65 && v <= 90 {
            ((v + 32) as u8) as char
        } else {
            c
        };
        proof {
            assert(lc == lower_char(s@[i as int]));
        }
        res.push(lc);
        i += 1;
    }
    proof {
        assert(res@ =~= lower_of(s@));
    }
    res
}

/// Element-wise equality of two character vectors.
pub fn chars_eq(a: &Vec<char>, b: &Vec<char>) -> (res: bool)
    ensures
        res <==> a@ == b@,
{
    if a.len() != b.len() {
        return false;
    }
    let mut i: usize = 0;
    while i < a.len()
        invariant
            a@.len() == b@.len(),
            i <= a@.len(),
            forall|j: int| 0 <= j < i ==> a@[j] == b@[j],
        decreases a@.len() - i,
    {
        if a[i] != b[i] {
            return false;
        }
        i += 1;
    }
    proof {
        assert(a@ =~= b@);
    }
    true
}

} // verus!
