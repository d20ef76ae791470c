use vstd::prelude::*;
use vstd::string::*;

use crate::text::{chars_of, trim, trimmed};

verus! {

broadcast use vstd::string::group_string_axioms;

/// Name, description and license read from a skill's front matter.
pub type SkillMeta = (Seq<char>, Seq<char>, Option<Seq<char>>);

/// `s` without leading double quotes.
pub open spec fn unquote_front(s: Seq<char>) -> Seq<char>
    decreases s.len(),
{
    if s.len() > 0 && s[0] == '"' {
        unquote_front(s.drop_first())
    } else {
        s
    }
}

/// `s` without trailing double quotes.
pub open spec fn unquote_back(s: Seq<char>) -> Seq<char>
    decreases s.len(),
{
    if s.len() > 0 && s.last() == '"' {
        unquote_back(s.drop_last())
    } else {
        s
    }
}

/// The value after `prefix` on a trimmed line, trimmed and without quotes
/// at either end; nothing when the line does not start with `prefix`.
pub open spec fn field_value(line: Seq<char>, prefix: Seq<char>) -> Option<Seq<char>> {
    let t = trimmed(line);
    if t.len() >= prefix.len() && t.subrange(0, prefix.len() as int) == prefix {
        Some(unquote_back(unquote_front(trimmed(t.subrange(prefix.len() as int, t.len() as int)))))
    } else {
        None
    }
}

/// The metadata after reading one more line: a `name:`, `description:` or
/// `license:` line sets that field, any other line changes nothing.
pub open spec fn apply_line(m: SkillMeta, line: Seq<char>) -> SkillMeta {
    match field_value(line, "name:"@) {
        Some(v) => (v, m.1, m.2),
        None => match field_value(line, "description:"@) {
            Some(v) => (m.0, v, m.2),
            None => match field_value(line, "license:"@) {
                Some(v) => (m.0, m.1, Some(v)),
                None => m,
            },
        },
    }
}

/// Reading `s` line by line: the metadata of its complete lines, and the
/// characters of the line still open.
pub open spec fn scan_lines(s: Seq<char>) -> (SkillMeta, Seq<char>)
    decreases s.len(),
{
    if s.len() == 0 {
        ((Seq::empty(), Seq::empty(), None), Seq::empty())
    } else {
        let (m, cur) = scan_lines(s.drop_last());
        if s.last() == '\n' {
            (apply_line(m, cur), Seq::empty())
        } else {
            (m, cur.push(s.last()))
        }
    }
}

/// The metadata of a front-matter block.
pub open spec fn block_meta(s: Seq<char>) -> SkillMeta {
    apply_line(scan_lines(s).0, scan_lines(s).1)
}

/// First position at or after `i` where `needle` starts in `hay`; the
/// length of `hay` when there is none.
pub open spec fn first_match_from(hay: Seq<char>, needle: Seq<char>, i: int) -> int
    decreases hay.len() - i,
{
    if i < 0 || needle.len() == 0 || i + needle.len() > hay.len() {
        hay.len() as int
    } else if hay.subrange(i, i + needle.len()) == needle {
        i
    } else {
        first_match_from(hay, needle, i + 1)
    }
}

/// The front-matter block: what lies between a leading `---` and the next
/// `---`, if the text has both.
pub open spec fn front_matter(c: Seq<char>) -> Option<Seq<char>> {
    let dashes = seq!['-', '-', '-'];
    if c.len() >= 3 && c.subrange(0, 3) == dashes {
        let rest = c.subrange(3, c.len() as int);
        let e = first_match_from(rest, dashes, 0);
        if e < rest.len() {
            Some(rest.subrange(0, e))
        } else {
            None
        }
    } else {
        None
    }
}

/// Metadata of a `SKILL.md` text; the name falls back to `dir_name` when
/// the front matter gives none.
pub open spec fn skill_meta(c: Seq<char>, dir_name: Seq<char>) -> SkillMeta {
    let m = match front_matter(c) {
        Some(b) => block_meta(b),
        None => (Seq::empty(), Seq::empty(), None),
    };
    (if m.0.len() == 0 { dir_name } else { m.0 }, m.1, m.2)
}

proof fn lemma_unquote_front(s: Seq<char>, k: int)
    requires
        0 <= k <= s.len(),
        forall|j: int| 0 <= j < k ==> #[trigger] s[j] == '"',
        k == s.len() || s[k] != '"',
    ensures
        unquote_front(s) == s.subrange(k, s.len() as int),
    decreases k,
{
    if k == 0 {
        assert(s.subrange(0, s.len() as int) =~= s);
    } else {
        let t = s.drop_first();
        assert forall|j: int| 0 <= j < k - 1 implies #[trigger] t[j] == '"' by {
            assert(t[j] == s[j + 1]);
        }
        lemma_unquote_front(t, k - 1);
        assert(t.subrange(k - 1, t.len() as int) =~= s.subrange(k, s.len() as int));
    }
}

proof fn lemma_unquote_back(s: Seq<char>, e: int)
    requires
        0 <= e <= s.len(),
        forall|j: int| e <= j < s.len() ==> #[trigger] s[j] == '"',
        e == 0 || s[e - 1] != '"',
    ensures
        unquote_back(s) == s.subrange(0, e),
    decreases s.len() - e,
{
    if e == s.len() {
        assert(s.subrange(0, e) =~= s);
    } else {
        let t = s.drop_last();
        lemma_unquote_back(t, e);
        assert(t.subrange(0, e) =~= s.subrange(0, e));
    }
}

/// `s` without double quotes at either end.
fn unquote(s: &str) -> (r: String)
    ensures
        r@ == unquote_back(unquote_front(s@)),
{
    let n = s.unicode_len();
    let mut start: usize = 0;
    while start < n && s.get_char(start) == '"'
        invariant
            n == s@.len(),
            start <= n,
            forall|j: int| 0 <= j < start ==> #[trigger] s@[j] == '"',
        decreases n - start,
    {
        start = start + 1;
    }
    let mut end: usize = n;
    while end > start && s.get_char(end - 1) == '"'
        invariant
            n == s@.len(),
            start <= end <= n,
            forall|j: int| end <= j < n ==> #[trigger] s@[j] == '"',
        decreases end,
    {
        end = end - 1;
    }
    proof {
        lemma_unquote_front(s@, start as int);
        let f = s@.subrange(start as int, n as int);
        assert forall|j: int| end - start <= j < f.len() implies #[trigger] f[j] == '"' by {
            assert(f[j] == s@[start + j]);
        }
        if end > start {
            assert(f[end - start - 1] == s@[end - 1]);
        }
        lemma_unquote_back(f, end - start);
        assert(f.subrange(0, end - start) =~= s@.subrange(start as int, end as int));
    }
    String::from_str(s.substring_char(start, end))
}

/// The value of `line` under `prefix` (see `field_value`).
fn line_field(line: &str, prefix: &str) -> (r: Option<String>)
    ensures
        match r {
            Some(v) => field_value(line@, prefix@) == Some(v@),
            None => field_value(line@, prefix@) is None,
        },
{
    let t = trim(line);
    let tl = t.as_str().unicode_len();
    let pl = prefix.unicode_len();
    if tl < pl {
        return None;
    }
    let head = t.as_str().substring_char(0, pl);
    if !crate::text::same_text(head, prefix) {
        return None;
    }
    let value = trim(t.as_str().substring_char(pl, tl));
    Some(unquote(value.as_str()))
}

fn apply_line_exec(name: &mut String, description: &mut String, license: &mut Option<String>, line: &str)
    ensures
        ({
            let m = apply_line((old(name)@, old(description)@, match *old(license) {
                Some(l) => Some(l@),
                None => None,
            }), line@);
            final(name)@ == m.0 && final(description)@ == m.1 && match *final(license) {
                Some(l) => m.2 == Some(l@),
                None => m.2 is None,
            }
        }),
{
    match line_field(line, "name:") {
        Some(v) => {
            *name = v;
            return;
        },
        None => {},
    }
    match line_field(line, "description:") {
        Some(v) => {
            *description = v;
            return;
        },
        None => {},
    }
    match line_field(line, "license:") {
        Some(v) => {
            *license = Some(v);
        },
        None => {},
    }
}

/// Position of the first `---` in `c` at or after `from`, or the length.
fn find_dashes(c: &Vec<char>, from: usize) -> (r: usize)
    requires
        from <= c@.len(),
    ensures
        r - from == first_match_from(c@.subrange(from as int, c@.len() as int), seq!['-', '-', '-'], 0),
        from <= r <= c@.len(),
{
    let ghost rest = c@.subrange(from as int, c@.len() as int);
    let ghost dashes = seq!['-', '-', '-'];
    assert(dashes.len() == 3 && dashes[0] == '-' && dashes[1] == '-' && dashes[2] == '-');
    let n = c.len();
    let mut i: usize = from;
    while i < n && n - i >= 3
        invariant
            n == c@.len(),
            from <= i <= n,
            rest == c@.subrange(from as int, c@.len() as int),
            dashes.len() == 3 && dashes[0] == '-' && dashes[1] == '-' && dashes[2] == '-',
            dashes == seq!['-', '-', '-'],
            first_match_from(rest, dashes, 0) == first_match_from(rest, dashes, i - from),
        decreases n - i,
    {
        let ghost w = rest.subrange(i - from, i - from + 3);
        assert(w[0] == c@[i as int]);
        assert(w[1] == c@[i + 1]);
        assert(w[2] == c@[i + 2]);
        if c[i] == '-' && c[i + 1] == '-' && c[i + 2] == '-' {
            assert(w =~= dashes);
            return i;
        }
        assert(w[0] != dashes[0] || w[1] != dashes[1] || w[2] != dashes[2]);
        i = i + 1;
    }
    n
}

/// Name, description and license of a `SKILL.md` text: the `name:`,
/// `description:` and `license:` lines of a leading `---` ... `---` block,
/// values trimmed and unquoted, later lines winning; the name is
/// `dir_name` when the block gives none.
pub fn parse_skill_front_matter(content: &str, dir_name: &str) -> (r: (String, String, Option<String>))
    ensures
        ({
            let m = skill_meta(content@, dir_name@);
            r.0@ == m.0 && r.1@ == m.1 && match r.2 {
                Some(l) => m.2 == Some(l@),
                None => m.2 is None,
            }
        }),
{
    let c = chars_of(content);
    let n = c.len();
    let mut name = String::new();
    let mut description = String::new();
    let mut license: Option<String> = None;
    let ghost dashes = seq!['-', '-', '-'];
    let has_start = n >= 3 && c[0] == '-' && c[1] == '-' && c[2] == '-';
    proof {
        if n >= 3 {
            if has_start {
                assert(c@.subrange(0, 3) =~= dashes);
            } else {
                assert(c@.subrange(0, 3)[0] == c@[0]);
                assert(c@.subrange(0, 3)[1] == c@[1]);
                assert(c@.subrange(0, 3)[2] == c@[2]);
            }
        }
    }
    if has_start {
        let e = find_dashes(&c, 3);
        if e < n {
            let ghost block = c@.subrange(3, e as int);
            assert(block =~= c@.subrange(3, n as int).subrange(0, e - 3));
            let mut start: usize = 3;
            let mut k: usize = 3;
            assert(c@.subrange(3, 3) =~= Seq::<char>::empty());
            while k < e
                invariant
                    c@ == content@,
                    n == c@.len(),
                    3 <= start <= k <= e < n,
                    block == c@.subrange(3, e as int),
                    scan_lines(block.subrange(0, k - 3)).0 == (name@, description@, match license {
                        Some(l) => Some(l@),
                        None => None,
                    }),
                    scan_lines(block.subrange(0, k - 3)).1 == c@.subrange(start as int, k as int),
                decreases e - k,
            {
                let ghost pre = block.subrange(0, k - 3);
                let ghost nxt = block.subrange(0, k + 1 - 3);
                assert(nxt.drop_last() =~= pre);
                assert(nxt.last() == c@[k as int]);
                if c[k] == '\n' {
                    let line = content.substring_char(start, k);
                    apply_line_exec(&mut name, &mut description, &mut license, line);
                    start = k + 1;
                    assert(c@.subrange(start as int, k + 1) =~= Seq::<char>::empty());
                } else {
                    assert(c@.subrange(start as int, k + 1) =~= c@.subrange(start as int, k as int).push(c@[k as int]));
                }
                k = k + 1;
            }
            assert(block.subrange(0, e - 3) =~= block);
            let line = content.substring_char(start, e);
            apply_line_exec(&mut name, &mut description, &mut license, line);
        }
    }
    if name.as_str().unicode_len() == 0 {
        name = String::from_str(dir_name);
    }
    (name, description, license)
}

} // verus!
