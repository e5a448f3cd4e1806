//! A parser of INI text: sections in brackets and `key = value` lines, with
//! text held as sequences of characters.
use vstd::prelude::*;
use crate::shell::{is_whitespace_spec, is_whitespace};

verus! {

/// A section: its name and its properties in order.
#[derive(Debug)]
pub struct IniSection {
    pub name: Vec<char>,
    pub properties: Vec<(Vec<char>, Vec<char>)>,
}

/// The sections of an INI text, in order.
#[derive(Debug)]
pub struct IniFile {
    pub sections: Vec<IniSection>,
}

/// A section as a name and a sequence of key–value pairs.
pub type SectionView = (Seq<char>, Seq<(Seq<char>, Seq<char>)>);

impl IniSection {
    /// The section as plain sequences.
    pub open spec fn view_section(&self) -> SectionView {
        (self.name@, self.properties@.map_values(|p: (Vec<char>, Vec<char>)| (p.0@, p.1@)))
    }
}

impl IniFile {
    /// The sections as plain sequences.
    pub open spec fn view_sections(&self) -> Seq<SectionView> {
        self.sections@.map_values(|s: IniSection| s.view_section())
    }
}

/// Index of the first character of `s` from `i` on that is not white space.
pub open spec fn skip_ws(s: Seq<char>, i: int) -> int
    decreases s.len() - i,
{
    if i < 0 || i >= s.len() {
        s.len() as int
    } else if is_whitespace_spec(s[i]) {
        skip_ws(s, i + 1)
    } else {
        i
    }
}

/// One past the last character of `s` before `j` that is not white space,
/// not going below `lo`.
pub open spec fn skip_ws_back(s: Seq<char>, lo: int, j: int) -> int
    decreases j - lo,
{
    if j <= lo {
        lo
    } else if is_whitespace_spec(s[j - 1]) {
        skip_ws_back(s, lo, j - 1)
    } else {
        j
    }
}

/// `s` without the white space at its two ends.
pub open spec fn trim(s: Seq<char>) -> Seq<char> {
    let a = skip_ws(s, 0);
    s.subrange(a, skip_ws_back(s, a, s.len() as int))
}

/// The lines of a text: the pieces between its newlines.
pub open spec fn split_lines(s: Seq<char>) -> Seq<Seq<char>>
    decreases s.len(),
{
    if s.len() == 0 {
        seq![Seq::empty()]
    } else {
        let p = split_lines(s.drop_last());
        if s.last() == '\n' {
            p.push(Seq::empty())
        } else {
            p.update(p.len() - 1, p.last().push(s.last()))
        }
    }
}

/// Index of the first `=` of a line, or -1.
pub open spec fn first_eq(s: Seq<char>) -> int {
    if exists|i: int| 0 <= i < s.len() && s[i] == '=' {
        choose|i: int| 0 <= i < s.len() && s[i] == '=' && forall|j: int| 0 <= j < i ==> s[j] != '='
    } else {
        -1
    }
}

/// Parsing state: the finished sections and the one being filled, if any.
pub type IniState = (Seq<SectionView>, Option<SectionView>);

/// The state after one line: blank lines and comments (`;` or `#`) change
/// nothing; `[name]` finishes the current section and opens one named by
/// the trimmed text between the brackets; a line with `=` adds the trimmed
/// text before and after the first `=` as a property, opening an unnamed
/// section if none is open; other lines are ignored.
pub open spec fn ini_step(st: IniState, raw: Seq<char>) -> IniState {
    let line = trim(raw);
    if line.len() == 0 || line[0] == ';' || line[0] == '#' {
        st
    } else if line[0] == '[' && line.last() == ']' && line.len() >= 2 {
        let done = match st.1 {
            Some(sec) => st.0.push(sec),
            None => st.0,
        };
        (done, Some((trim(line.subrange(1, line.len() - 1)), Seq::empty())))
    } else if first_eq(line) >= 0 {
        let pos = first_eq(line);
        let prop = (trim(line.take(pos)), trim(line.skip(pos + 1)));
        match st.1 {
            Some(sec) => (st.0, Some((sec.0, sec.1.push(prop)))),
            None => (st.0, Some((Seq::empty(), seq![prop]))),
        }
    } else {
        st
    }
}

/// A comment line, one whose text starts with `;` or `#` once trimmed,
/// leaves the parsing state as it was, whatever else it holds: no section
/// is opened and no property is added.
pub proof fn lemma_comment_line_ignored(st: IniState, raw: Seq<char>)
    requires
        trim(raw).len() > 0,
        trim(raw)[0] == ';' || trim(raw)[0] == '#',
    ensures
        ini_step(st, raw) == st,
{
}

/// The state after the given lines, in order.
pub open spec fn ini_fold(lines: Seq<Seq<char>>) -> IniState
    decreases lines.len(),
{
    if lines.len() == 0 {
        (Seq::empty(), None)
    } else {
        ini_step(ini_fold(lines.drop_last()), lines.last())
    }
}

/// The sections of an INI text.
pub open spec fn ini_sections(input: Seq<char>) -> Seq<SectionView> {
    let st = ini_fold(split_lines(input));
    match st.1 {
        Some(sec) => st.0.push(sec),
        None => st.0,
    }
}

proof fn lemma_split_lines_nonempty(s: Seq<char>)
    ensures
        split_lines(s).len() >= 1,
    decreases s.len(),
{
    if s.len() > 0 {
        lemma_split_lines_nonempty(s.drop_last());
    }
}

/// The parsing state held by the parser, as plain sequences.
pub open spec fn state_view(sections: Seq<IniSection>, current: Option<IniSection>) -> IniState {
    (
        sections.map_values(|s: IniSection| s.view_section()),
        match current {
            Some(c) => Some(c.view_section()),
            None => None,
        },
    )
}

fn copy_sub(s: &Vec<char>, from: usize, to: usize) -> (r: Vec<char>)
    requires
        from <= to <= s@.len(),
    ensures
        r@ == s@.subrange(from as int, to as int),
{
    let mut out: Vec<char> = Vec::new();
    let mut i = from;
    while i < to
        invariant
            from <= i <= to,
            to <= s@.len(),
            out@ == s@.subrange(from as int, i as int),
        decreases to - i,
    {
        out.push(s[i]);
        i = i + 1;
        assert(out@ =~= s@.subrange(from as int, i as int));
    }
    out
}

/// `s` trimmed of white space at both ends.
fn trimmed(s: &Vec<char>) -> (r: Vec<char>)
    ensures
        r@ == trim(s@),
{
    let mut a: usize = 0;
    while a < s.len() && is_whitespace(s[a])
        invariant
            a <= s@.len(),
            skip_ws(s@, a as int) == skip_ws(s@, 0),
        decreases s@.len() - a,
    {
        a = a + 1;
    }
    let mut b: usize = s.len();
    while b > a && is_whitespace(s[b - 1])
        invariant
            a <= b <= s@.len(),
            a == skip_ws(s@, 0),
            skip_ws_back(s@, a as int, b as int) == skip_ws_back(s@, a as int, s@.len() as int),
        decreases b - a,
    {
        b = b - 1;
    }
    copy_sub(s, a, b)
}

proof fn lemma_skip_ws_bound(s: Seq<char>, i: int)
    requires
        0 <= i <= s.len(),
    ensures
        i <= skip_ws(s, i) <= s.len(),
    decreases s.len() - i,
{
    if i < s.len() && is_whitespace_spec(s[i]) {
        lemma_skip_ws_bound(s, i + 1);
    }
}

proof fn lemma_skip_ws_back_bound(s: Seq<char>, lo: int, j: int)
    requires
        lo <= j,
    ensures
        lo <= skip_ws_back(s, lo, j) <= j,
    decreases j - lo,
{
    if j > lo && is_whitespace_spec(s[j - 1]) {
        lemma_skip_ws_back_bound(s, lo, j - 1);
    }
}

/// Index of the first `=` of a line, if any.
fn find_eq(s: &Vec<char>) -> (r: Option<usize>)
    ensures
        match r {
            Some(i) => i == first_eq(s@) && i < s@.len(),
            None => first_eq(s@) == -1,
        },
{
    let mut i: usize = 0;
    while i < s.len()
        invariant
            i <= s@.len(),
            forall|j: int| 0 <= j < i ==> s@[j] != '=',
        decreases s@.len() - i,
    {
        if s[i] == '=' {
            proof {
                let k = choose|k: int| 0 <= k < s@.len() && s@[k] == '=' && forall|j: int| 0 <= j < k ==> s@[j] != '=';
                if k < i {
                } else if k > i {
                }
            }
            return Some(i);
        }
        i = i + 1;
    }
    None
}

/// Applies one line to the parsing state.
fn process_line(sections: &mut Vec<IniSection>, current: &mut Option<IniSection>, raw: &Vec<char>)
    ensures
        state_view(final(sections)@, *final(current)) == ini_step(state_view(old(sections)@, *old(current)), raw@),
{
    let line = trimmed(raw);
    let ghost st = state_view(old(sections)@, *old(current));
    if line.len() == 0 || line[0] == ';' || line[0] == '#' {
        return;
    }
    let n = line.len();
    if line[0] == '[' && line[n - 1] == ']' && n >= 2 {
        let inner = copy_sub(&line, 1, n - 1);
        let name = trimmed(&inner);
        let prev = current.take();
        *current = Some(IniSection { name, properties: Vec::new() });
        match prev {
            Some(sec) => {
                let ghost sv = sec.view_section();
                sections.push(sec);
                assert(sections@.map_values(|s: IniSection| s.view_section()) =~= st.0.push(sv));
            },
            None => {},
        }
        proof {
            let c = current.unwrap();
            assert(c.properties@.map_values(|p: (Vec<char>, Vec<char>)| (p.0@, p.1@)) =~= Seq::<(Seq<char>, Seq<char>)>::empty());
        }
        return;
    }
    match find_eq(&line) {
        None => {},
        Some(pos) => {
            let k = copy_sub(&line, 0, pos);
            let v = copy_sub(&line, pos + 1, n);
            let key = trimmed(&k);
            let value = trimmed(&v);
            assert(k@ =~= line@.take(pos as int));
            assert(v@ =~= line@.skip(pos + 1));
            let ghost prop = (key@, value@);
            match current {
                Some(sec) => {
                    let ghost before = sec.properties@.map_values(|p: (Vec<char>, Vec<char>)| (p.0@, p.1@));
                    sec.properties.push((key, value));
                    assert(sec.properties@.map_values(|p: (Vec<char>, Vec<char>)| (p.0@, p.1@)) =~= before.push(prop));
                },
                None => {
                    let mut props: Vec<(Vec<char>, Vec<char>)> = Vec::new();
                    props.push((key, value));
                    assert(props@.map_values(|p: (Vec<char>, Vec<char>)| (p.0@, p.1@)) =~= seq![prop]);
                    *current = Some(IniSection { name: Vec::new(), properties: props });
                    assert(current.unwrap().name@ =~= Seq::<char>::empty());
                },
            }
        },
    }
}

/// Parses INI text into its sections, line by line: see `ini_step`.
pub fn parse_ini(input: &[char]) -> (r: IniFile)
    ensures
        r.view_sections() == ini_sections(input@),
{
    let mut sections: Vec<IniSection> = Vec::new();
    let mut current: Option<IniSection> = None;
    let mut cur: Vec<char> = Vec::new();
    let mut i: usize = 0;
    proof {
        assert(input@.take(0) =~= Seq::<char>::empty());
        assert(split_lines(Seq::<char>::empty()).drop_last() =~= Seq::<Seq<char>>::empty());
        assert(sections@.map_values(|s: IniSection| s.view_section()) =~= Seq::<SectionView>::empty());
    }
    while i < input.len()
        invariant
            i <= input@.len(),
            state_view(sections@, current) == ini_fold(split_lines(input@.take(i as int)).drop_last()),
            cur@ == split_lines(input@.take(i as int)).last(),
        decreases input@.len() - i,
    {
        proof {
            assert(input@.take(i + 1).drop_last() =~= input@.take(i as int));
            assert(input@.take(i + 1).last() == input@[i as int]);
            lemma_split_lines_nonempty(input@.take(i as int));
        }
        let c = input[i];
        if c == '\n' {
            let ghost lines = split_lines(input@.take(i as int));
            proof {
                lemma_split_lines_nonempty(input@.take(i as int));
            }
            process_line(&mut sections, &mut current, &cur);
            proof {
                assert(lines.drop_last().push(lines.last()) =~= lines);
                assert(split_lines(input@.take(i + 1)) == lines.push(Seq::empty()));
                assert(split_lines(input@.take(i + 1)).drop_last() =~= lines);
                assert(ini_fold(lines) == ini_step(ini_fold(lines.drop_last()), lines.last()));
            }
            cur = Vec::new();
        } else {
            proof {
                let p = split_lines(input@.take(i as int));
                assert(split_lines(input@.take(i + 1)) == p.update(p.len() - 1, p.last().push(c)));
                assert(split_lines(input@.take(i + 1)).drop_last() =~= p.drop_last());
            }
            cur.push(c);
        }
        i = i + 1;
    }
    proof {
        assert(input@.take(input@.len() as int) =~= input@);
        lemma_split_lines_nonempty(input@);
        let lines = split_lines(input@);
        assert(lines.drop_last().push(lines.last()) =~= lines);
    }
    process_line(&mut sections, &mut current, &cur);
    match current {
        Some(sec) => {
            let ghost sv = sec.view_section();
            let ghost before = sections@.map_values(|s: IniSection| s.view_section());
            sections.push(sec);
            assert(sections@.map_values(|s: IniSection| s.view_section()) =~= before.push(sv));
        },
        None => {},
    }
    IniFile { sections }
}

/// Comment lines change nothing in a whole text either: adding one after
/// any lines leaves the sections and properties read so far as they were.
pub proof fn lemma_comment_lines_ignored(lines: Seq<Seq<char>>, raw: Seq<char>)
    requires
        trim(raw).len() > 0,
        trim(raw)[0] == ';' || trim(raw)[0] == '#',
    ensures
        ini_fold(lines.push(raw)) == ini_fold(lines),
{
    assert(lines.push(raw).drop_last() =~= lines);
    lemma_comment_line_ignored(ini_fold(lines), raw);
}

} // verus!
