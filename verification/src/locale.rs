use vstd::prelude::*;

verus! {

/// Whether `c` has the Unicode `White_Space` property: tab, line feed, vertical tab, form
/// feed, carriage return, space, next line, no-break space, ogham space mark, the spaces
/// from en quad to hair space, line and paragraph separators, narrow no-break space,
/// medium mathematical space and ideographic space.
pub open spec fn white_space(c: char) -> bool {
    let u = c as u32;
    ||| 0x09 <= u <= 0x0D
    ||| u == 0x20
    ||| u == 0x85
    ||| u == 0xA0
    ||| u == 0x1680
    ||| 0x2000 <= u <= 0x200A
    ||| u == 0x2028
    ||| u == 0x2029
    ||| u == 0x202F
    ||| u == 0x205F
    ||| u == 0x3000
}

/// Whether `c` is white space (the test of `char::is_whitespace`).
fn is_white_space(c: char) -> (b: bool)
    ensures
        b == white_space(c),
{
    let u = c as u32;
    (0x09 <= u && u <= 0x0D) || u == 0x20 || u == 0x85 || u == 0xA0 || u == 0x1680 || (0x2000
        <= u && u <= 0x200A) || u == 0x2028 || u == 0x2029 || u == 0x202F || u == 0x205F || u
        == 0x3000
}

/// The first index in `from..to` that holds `c`, or `to` when there is none.
pub open spec fn find_char(s: Seq<char>, c: char, from: int, to: int) -> int
    decreases to - from,
{
    if from >= to {
        to
    } else if s[from] == c {
        from
    } else {
        find_char(s, c, from + 1, to)
    }
}

/// The first index in `from..to` that holds a character other than white space, or `to`.
pub open spec fn skip_white(s: Seq<char>, from: int, to: int) -> int
    decreases to - from,
{
    if from >= to {
        to
    } else if !white_space(s[from]) {
        from
    } else {
        skip_white(s, from + 1, to)
    }
}

/// The end of `from..to` once the white space at its end is dropped.
pub open spec fn drop_white_end(s: Seq<char>, from: int, to: int) -> int
    decreases to - from,
{
    if to <= from {
        from
    } else if !white_space(s[to - 1]) {
        to
    } else {
        drop_white_end(s, from, to - 1)
    }
}

/// The characters of `s[from..to]` without white space at either end (`str::trim`).
pub open spec fn trimmed(s: Seq<char>, from: int, to: int) -> Seq<char> {
    let a = skip_white(s, from, to);
    s.subrange(a, drop_white_end(s, a, to))
}

/// Where the line that starts at `pos` ends: before its newline, and before a carriage
/// return right before that newline (`str::lines`).
pub open spec fn line_end(s: Seq<char>, pos: int) -> int {
    let nl = find_char(s, '\n', pos, s.len() as int);
    if nl < s.len() && nl > pos && s[nl - 1] == '\r' {
        nl - 1
    } else {
        nl
    }
}

/// Where the line after the one that starts at `pos` starts.
pub open spec fn next_line(s: Seq<char>, pos: int) -> int {
    let nl = find_char(s, '\n', pos, s.len() as int);
    if nl < s.len() {
        nl + 1
    } else {
        s.len() as int
    }
}

/// What the line `s[a..b]` defines: nothing when it is a comment (its first character
/// other than white space is `#`) or has no `=`; else the text before the first `=` as the
/// key and the text after it as the value, both trimmed.
pub open spec fn line_entry(s: Seq<char>, a: int, b: int) -> Seq<(Seq<char>, Seq<char>)> {
    let t = skip_white(s, a, b);
    let eq = find_char(s, '=', a, b);
    if (t < b && s[t] == '#') || eq >= b {
        Seq::empty()
    } else {
        seq![(trimmed(s, a, eq), trimmed(s, eq + 1, b))]
    }
}

pub proof fn lemma_find_char_bounds(s: Seq<char>, c: char, from: int, to: int)
    requires
        from <= to,
    ensures
        from <= find_char(s, c, from, to) <= to,
    decreases to - from,
{
    if from < to && s[from] != c {
        lemma_find_char_bounds(s, c, from + 1, to);
    }
}

/// The entries that the lines of `s` from `pos` on define, in order.
pub open spec fn entries_from(s: Seq<char>, pos: int) -> Seq<(Seq<char>, Seq<char>)>
    decreases s.len() - pos,
{
    if pos < 0 || pos >= s.len() {
        Seq::empty()
    } else {
        proof {
            lemma_find_char_bounds(s, '\n', pos, s.len() as int);
        }
        line_entry(s, pos, line_end(s, pos)) + entries_from(s, next_line(s, pos))
    }
}

/// The value of `key`: the last entry for it wins.
pub open spec fn lookup(entries: Seq<(Seq<char>, Seq<char>)>, key: Seq<char>) -> Option<Seq<char>>
    decreases entries.len(),
{
    if entries.len() == 0 {
        None
    } else if entries.last().0 == key {
        Some(entries.last().1)
    } else {
        lookup(entries.drop_last(), key)
    }
}

/// The translated texts of the user interface, by key.
#[derive(Debug, Clone, Default)]
pub struct Locale {
    entries: Vec<(String, String)>,
}

impl View for Locale {
    type V = Seq<(Seq<char>, Seq<char>)>;

    closed spec fn view(&self) -> Seq<(Seq<char>, Seq<char>)> {
        self.entries@.map_values(|e: (String, String)| (e.0@, e.1@))
    }
}

fn find_char_in(chars: &Vec<char>, c: char, from: usize, to: usize) -> (i: usize)
    requires
        from <= to <= chars@.len(),
    ensures
        i == find_char(chars@, c, from as int, to as int),
        from <= i <= to,
{
    let mut i = from;
    while i < to && chars[i] != c
        invariant
            from <= i <= to,
            to <= chars@.len(),
            find_char(chars@, c, i as int, to as int) == find_char(chars@, c, from as int, to as int),
        decreases to - i,
    {
        i = i + 1;
    }
    i
}

fn skip_white_in(chars: &Vec<char>, from: usize, to: usize) -> (i: usize)
    requires
        from <= to <= chars@.len(),
    ensures
        i == skip_white(chars@, from as int, to as int),
        from <= i <= to,
{
    let mut i = from;
    while i < to && is_white_space(chars[i])
        invariant
            from <= i <= to,
            to <= chars@.len(),
            skip_white(chars@, i as int, to as int) == skip_white(chars@, from as int, to as int),
        decreases to - i,
    {
        i = i + 1;
    }
    i
}

fn drop_white_end_in(chars: &Vec<char>, from: usize, to: usize) -> (j: usize)
    requires
        from <= to <= chars@.len(),
    ensures
        j == drop_white_end(chars@, from as int, to as int),
        from <= j <= to,
{
    let mut j = to;
    while j > from && is_white_space(chars[j - 1])
        invariant
            from <= j <= to,
            to <= chars@.len(),
            drop_white_end(chars@, from as int, j as int) == drop_white_end(
                chars@,
                from as int,
                to as int,
            ),
        decreases j - from,
    {
        j = j - 1;
    }
    j
}

impl Locale {
    /// Reads `key = value` lines; lines that are comments (`#`) or hold no `=` are skipped.
    pub fn parse(src: &str) -> (locale: Locale)
        ensures
            locale@ == entries_from(src@, 0),
    {
        let n = src.unicode_len();
        let mut chars: Vec<char> = Vec::new();
        let mut i: usize = 0;
        while i < n
            invariant
                0 <= i <= n,
                n == src@.len(),
                chars@ == src@.take(i as int),
            decreases n - i,
        {
            chars.push(src.get_char(i));
            assert(src@.take(i + 1) =~= src@.take(i as int).push(src@[i as int]));
            i = i + 1;
        }
        assert(chars@ =~= src@);
        let ghost s = src@;
        let mut entries: Vec<(String, String)> = Vec::new();
        let mut pos: usize = 0;
        while pos < n
            invariant
                0 <= pos <= n,
                n == s.len(),
                chars@ == s,
                s == src@,
                entries_from(s, 0) == entries@.map_values(|e: (String, String)| (e.0@, e.1@))
                    + entries_from(s, pos as int),
            decreases n - pos,
        {
            let ghost before = entries@.map_values(|e: (String, String)| (e.0@, e.1@));
            let nl = find_char_in(&chars, '\n', pos, n);
            let end = if nl < n && nl > pos && chars[nl - 1] == '\r' {
                nl - 1
            } else {
                nl
            };
            let t = skip_white_in(&chars, pos, end);
            let eq = find_char_in(&chars, '=', pos, end);
            if !((t < end && chars[t] == '#') || eq >= end) {
                let ka = skip_white_in(&chars, pos, eq);
                let kb = drop_white_end_in(&chars, ka, eq);
                let va = skip_white_in(&chars, eq + 1, end);
                let vb = drop_white_end_in(&chars, va, end);
                let key = String::from_str(src.substring_char(ka, kb));
                let value = String::from_str(src.substring_char(va, vb));
                entries.push((key, value));
                assert(entries@.map_values(|e: (String, String)| (e.0@, e.1@)) =~= before.push(
                    (trimmed(s, pos as int, eq as int), trimmed(s, eq + 1, end as int)),
                ));
            } else {
                assert(entries@.map_values(|e: (String, String)| (e.0@, e.1@)) =~= before);
            }
            let next = if nl < n {
                nl + 1
            } else {
                n
            };
            proof {
                assert(entries_from(s, pos as int) == line_entry(s, pos as int, end as int)
                    + entries_from(s, next as int));
            }
            pos = next;
        }
        Locale { entries }
    }

    /// The text for `key`, or `key` itself when there is none.
    pub fn t(&self, key: &str) -> (text: String)
        ensures
            text@ == (match lookup(self@, key@) {
                Some(v) => v,
                None => key@,
            }),
    {
        let wanted = String::from_str(key);
        let mut k = self.entries.len();
        assert(self@.take(k as int) =~= self@);
        while k > 0
            invariant
                0 <= k <= self.entries@.len(),
                wanted@ == key@,
                lookup(self@, key@) == lookup(self@.take(k as int), key@),
            decreases k,
        {
            let ghost prefix = self@.take(k as int);
            assert(prefix.drop_last() =~= self@.take(k - 1));
            assert(prefix.last() == (self.entries@[k - 1].0@, self.entries@[k - 1].1@));
            if self.entries[k - 1].0 == wanted {
                return self.entries[k - 1].1.clone();
            }
            k = k - 1;
        }
        wanted
    }
}

} // verus!
