//! The kernel shell's line editing: what each key does to the line being
//! typed, tab completion against the entries of the current directory,
//! walking the command history, and feeding typed characters to a waiting
//! program. Text is held as sequences of characters.
use vstd::prelude::*;
use std::collections::VecDeque;
use crate::keyboard::decode::{DecodedKey, KeyEvent, KeyState, Modifiers};
use crate::keyboard::error::KeyboardError;
use crate::keyboard::keycode::KeyCode;
use crate::keyboard::layout::KeyboardLayout;
use crate::keyboard::ps2::{modifier_step, Keyboard, ScancodeSet};

verus! {

/// What kind of entry a command's argument can be completed to.
#[derive(Debug, Clone, Copy, PartialEq, Eq, Structural)]
pub enum CompletionType {
    File,
    Directory,
    Both,
    Disabled,
}

/// The kind of a directory entry.
#[derive(Debug, Clone, Copy, PartialEq, Eq, Structural)]
pub enum EntryKind {
    File,
    Directory,
}

/// Whether two character slices hold the same characters.
fn chars_eq(a: &[char], b: &[char]) -> (r: bool)
    ensures
        r == (a@ == b@),
{
    if a.len() != b.len() {
        return false;
    }
    let mut i: usize = 0;
    while i < a.len()
        invariant
            a@.len() == b@.len(),
            i <= a@.len(),
            forall|j: int| 0 <= j < i ==> a@[j] == b@[j],
        decreases a@.len() - i,
    {
        if a[i] != b[i] {
            return false;
        }
        i = i + 1;
    }
    assert(a@ =~= b@);
    true
}

/// The completion each command allows: directories for `cd`, `ls` and
/// `rmdir`, files for `cat`, `write` and `rm`, nothing for the commands that
/// take no path, and either for anything else.
pub open spec fn completion_type_spec(cmd: Seq<char>) -> CompletionType {
    if cmd == seq!['c', 'd'] || cmd == seq!['l', 's'] || cmd == seq!['r', 'm', 'd', 'i', 'r'] {
        CompletionType::Directory
    } else if cmd == seq!['c', 'a', 't'] || cmd == seq!['w', 'r', 'i', 't', 'e'] || cmd == seq!['r', 'm'] {
        CompletionType::File
    } else if cmd == seq!['c', 'l', 'e', 'a', 'r'] || cmd == seq!['h', 'e', 'l', 'p'] || cmd == seq![
        'e',
        'x',
        'i',
        't',
    ] || cmd == seq!['e', 'c', 'h', 'o'] || cmd == seq!['m', 'k', 'd', 'i', 'r'] || cmd == seq![
        'p',
        'r',
        'o',
        'g',
        's',
    ] || cmd == seq!['k', 'i', 'l', 'l'] || cmd == seq!['t', 'o', 'u', 'c', 'h'] {
        CompletionType::Disabled
    } else {
        CompletionType::Both
    }
}

/// A command's argument completes to files only when the command reads or
/// removes files (`cat`, `write`, `rm`), and to directories only when it
/// works on directories (`cd`, `ls`, `rmdir`).
pub proof fn lemma_completion_kinds(cmd: Seq<char>)
    ensures
        (kind_ok(completion_type_spec(cmd), EntryKind::File) && !kind_ok(
            completion_type_spec(cmd),
            EntryKind::Directory,
        )) <==> (cmd == seq!['c', 'a', 't'] || cmd == seq!['w', 'r', 'i', 't', 'e'] || cmd == seq!['r', 'm']),
        (kind_ok(completion_type_spec(cmd), EntryKind::Directory) && !kind_ok(
            completion_type_spec(cmd),
            EntryKind::File,
        )) <==> (cmd == seq!['c', 'd'] || cmd == seq!['l', 's'] || cmd == seq!['r', 'm', 'd', 'i', 'r']),
{
    let cat = seq!['c', 'a', 't'];
    let write = seq!['w', 'r', 'i', 't', 'e'];
    let rm = seq!['r', 'm'];
    let cd = seq!['c', 'd'];
    let ls = seq!['l', 's'];
    let rmdir = seq!['r', 'm', 'd', 'i', 'r'];
    assert(cat.len() == 3 && write.len() == 5 && rm.len() == 2 && cd.len() == 2 && ls.len() == 2
        && rmdir.len() == 5);
    assert(write[0] == 'w' && rmdir[0] == 'r' && rm[0] == 'r' && cd[0] == 'c' && ls[0] == 'l');
    assert(rm[1] == 'm' && cd[1] == 'd');
    if cmd == write {
        assert(cmd != rmdir);
    }
    if cmd == rm {
        assert(cmd != cd && cmd != ls);
    }
    if cmd == rmdir {
        assert(cmd != write);
    }
    if cmd == cd || cmd == ls {
        assert(cmd != rm);
    }
}

/// The completion a command allows for its argument.
pub fn command_supports_completion(command: &[char]) -> (r: CompletionType)
    ensures
        r == completion_type_spec(command@),
{
    let cd: [char; 2] = ['c', 'd'];
    let ls: [char; 2] = ['l', 's'];
    let rmdir: [char; 5] = ['r', 'm', 'd', 'i', 'r'];
    let cat: [char; 3] = ['c', 'a', 't'];
    let write: [char; 5] = ['w', 'r', 'i', 't', 'e'];
    let rm: [char; 2] = ['r', 'm'];
    let clear: [char; 5] = ['c', 'l', 'e', 'a', 'r'];
    let help: [char; 4] = ['h', 'e', 'l', 'p'];
    let exit: [char; 4] = ['e', 'x', 'i', 't'];
    let echo: [char; 4] = ['e', 'c', 'h', 'o'];
    let mkdir: [char; 5] = ['m', 'k', 'd', 'i', 'r'];
    let progs: [char; 5] = ['p', 'r', 'o', 'g', 's'];
    let kill: [char; 4] = ['k', 'i', 'l', 'l'];
    let touch: [char; 5] = ['t', 'o', 'u', 'c', 'h'];
    proof {
        assert(cd@ =~= seq!['c', 'd']);
        assert(ls@ =~= seq!['l', 's']);
        assert(rmdir@ =~= seq!['r', 'm', 'd', 'i', 'r']);
        assert(cat@ =~= seq!['c', 'a', 't']);
        assert(write@ =~= seq!['w', 'r', 'i', 't', 'e']);
        assert(rm@ =~= seq!['r', 'm']);
        assert(clear@ =~= seq!['c', 'l', 'e', 'a', 'r']);
        assert(help@ =~= seq!['h', 'e', 'l', 'p']);
        assert(exit@ =~= seq!['e', 'x', 'i', 't']);
        assert(echo@ =~= seq!['e', 'c', 'h', 'o']);
        assert(mkdir@ =~= seq!['m', 'k', 'd', 'i', 'r']);
        assert(progs@ =~= seq!['p', 'r', 'o', 'g', 's']);
        assert(kill@ =~= seq!['k', 'i', 'l', 'l']);
        assert(touch@ =~= seq!['t', 'o', 'u', 'c', 'h']);
    }
    if chars_eq(command, &cd) || chars_eq(command, &ls) || chars_eq(command, &rmdir) {
        CompletionType::Directory
    } else if chars_eq(command, &cat) || chars_eq(command, &write) || chars_eq(command, &rm) {
        CompletionType::File
    } else if chars_eq(command, &clear) || chars_eq(command, &help) || chars_eq(command, &exit)
        || chars_eq(command, &echo) || chars_eq(command, &mkdir) || chars_eq(command, &progs)
        || chars_eq(command, &kill) || chars_eq(command, &touch) {
        CompletionType::Disabled
    } else {
        CompletionType::Both
    }
}

/// Index of the first space of `line` at or after `i`, or its length.
pub open spec fn first_space_from(line: Seq<char>, i: int) -> int
    decreases line.len() - i,
{
    if i < 0 || i >= line.len() {
        line.len() as int
    } else if line[i] == ' ' {
        i
    } else {
        first_space_from(line, i + 1)
    }
}

/// The first space-separated word of a line (the whole line if it has no space).
pub open spec fn first_word(line: Seq<char>) -> Seq<char> {
    line.take(first_space_from(line, 0))
}

/// Where the word that ends at `j` starts: just after the last space before `j`.
pub open spec fn word_start(line: Seq<char>, j: int) -> int
    decreases j,
{
    if j <= 0 {
        0
    } else if line[j - 1] == ' ' {
        j
    } else {
        word_start(line, j - 1)
    }
}

/// The last space-separated word of a line (empty if it ends with a space).
pub open spec fn last_word(line: Seq<char>) -> Seq<char> {
    line.skip(word_start(line, line.len() as int))
}

/// Bytes a character takes in UTF-8.
pub open spec fn char_utf8_len(c: char) -> nat {
    if (c as u32) < 0x80 {
        1
    } else if (c as u32) < 0x800 {
        2
    } else if (c as u32) < 0x10000 {
        3
    } else {
        4
    }
}

/// Bytes a text takes in UTF-8.
pub open spec fn utf8_len(s: Seq<char>) -> nat
    decreases s.len(),
{
    if s.len() == 0 {
        0
    } else {
        utf8_len(s.drop_last()) + char_utf8_len(s.last())
    }
}

/// Whether `name` starts with `prefix`.
pub open spec fn starts_with(name: Seq<char>, prefix: Seq<char>) -> bool {
    prefix.len() <= name.len() && name.take(prefix.len() as int) == prefix
}

/// Whether an entry of kind `k` suits a completion of type `t`.
pub open spec fn kind_ok(t: CompletionType, k: EntryKind) -> bool {
    match t {
        CompletionType::File => k == EntryKind::File,
        CompletionType::Directory => k == EntryKind::Directory,
        CompletionType::Both => true,
        CompletionType::Disabled => false,
    }
}

/// The entries of a listing whose name starts with `part`, in listing order.
pub open spec fn matching(listing: Seq<(Vec<char>, EntryKind)>, part: Seq<char>) -> Seq<(Vec<char>, EntryKind)> {
    listing.filter(|e: (Vec<char>, EntryKind)| starts_with(e.0@, part))
}

/// The names of the entries that suit a completion of type `t`.
pub open spec fn suitable_names(ms: Seq<(Vec<char>, EntryKind)>, t: CompletionType) -> Seq<Seq<char>> {
    ms.filter(|e: (Vec<char>, EntryKind)| kind_ok(t, e.1)).map_values(|e: (Vec<char>, EntryKind)| e.0@)
}

/// What tab completion asks the screen to show.
#[derive(Debug)]
pub enum Completion {
    /// Four spaces were added to the line: echo them.
    Indent,
    /// `erase` characters were taken off the end of the line and `text`
    /// added: erase them on screen and echo the text.
    Replace { erase: usize, text: Vec<char> },
    /// Several entries match: print these names, each on its own line, then
    /// the prompt and the line again.
    List(Vec<Vec<char>>),
    /// Nothing to show.
    Nothing,
}

/// Index of the first space at or after `i`.
fn find_first_space(line: &Vec<char>) -> (r: usize)
    ensures
        r == first_space_from(line@, 0),
{
    let mut i: usize = 0;
    while i < line.len()
        invariant
            i <= line@.len(),
            first_space_from(line@, i as int) == first_space_from(line@, 0),
        decreases line@.len() - i,
    {
        if line[i] == ' ' {
            return i;
        }
        i = i + 1;
    }
    i
}

/// Index where the last word of the line starts.
fn find_last_word(line: &Vec<char>) -> (r: usize)
    ensures
        r == word_start(line@, line@.len() as int),
        r <= line@.len(),
{
    let mut j: usize = line.len();
    while j > 0
        invariant
            j <= line@.len(),
            word_start(line@, j as int) == word_start(line@, line@.len() as int),
        decreases j,
    {
        if line[j - 1] == ' ' {
            return j;
        }
        j = j - 1;
    }
    0
}

proof fn lemma_word_start_bound(line: Seq<char>, j: int)
    requires
        0 <= j <= line.len(),
    ensures
        0 <= word_start(line, j) <= j,
    decreases j,
{
    if j > 0 && line[j - 1] != ' ' {
        lemma_word_start_bound(line, j - 1);
    }
}

proof fn lemma_first_space_bound(line: Seq<char>, i: int)
    requires
        0 <= i <= line.len(),
    ensures
        i <= first_space_from(line, i) <= line.len(),
    decreases line.len() - i,
{
    if i < line.len() && line[i] != ' ' {
        lemma_first_space_bound(line, i + 1);
    }
}

/// Copies `s[from..to]`.
fn copy_range(s: &Vec<char>, from: usize, to: usize) -> (r: Vec<char>)
    requires
        from <= to <= s@.len(),
    ensures
        r@ == s@.subrange(from as int, to as int),
{
    let mut out: Vec<char> = Vec::new();
    let mut i = from;
    while i < to
        invariant
            from <= i <= to,
            to <= s@.len(),
            out@ == s@.subrange(from as int, i as int),
        decreases to - i,
    {
        out.push(s[i]);
        i = i + 1;
        assert(out@ =~= s@.subrange(from as int, i as int));
    }
    out
}

/// The smaller of `cap` and the bytes the characters of `s[from..]` take in UTF-8.
fn capped_utf8_len(s: &Vec<char>, from: usize, cap: usize) -> (r: usize)
    requires
        from <= s@.len(),
    ensures
        r == if utf8_len(s@.skip(from as int)) < cap { utf8_len(s@.skip(from as int)) } else { cap as nat },
{
    let mut n: usize = 0;
    let mut i: usize = from;
    let ghost t = s@.skip(from as int);
    while i < s.len()
        invariant
            from <= i <= s@.len(),
            t == s@.skip(from as int),
            n == if utf8_len(t.take(i - from)) < cap { utf8_len(t.take(i - from)) } else { cap as nat },
        decreases s@.len() - i,
    {
        let c = s[i] as u32;
        let k: usize = if c < 0x80 {
            1
        } else if c < 0x800 {
            2
        } else if c < 0x10000 {
            3
        } else {
            4
        };
        proof {
            assert(t.take(i + 1 - from).drop_last() =~= t.take(i - from));
            assert(t.take(i + 1 - from).last() == s@[i as int]);
        }
        if k > cap - n {
            n = cap;
        } else {
            n = n + k;
        }
        i = i + 1;
    }
    assert(t.take(s@.len() - from) =~= t);
    n
}

/// Whether `name` starts with `prefix`.
fn has_prefix(name: &Vec<char>, prefix: &Vec<char>) -> (r: bool)
    ensures
        r == starts_with(name@, prefix@),
{
    if prefix.len() > name.len() {
        return false;
    }
    let mut i: usize = 0;
    while i < prefix.len()
        invariant
            prefix@.len() <= name@.len(),
            i <= prefix@.len(),
            forall|j: int| 0 <= j < i ==> name@[j] == prefix@[j],
        decreases prefix@.len() - i,
    {
        if name[i] != prefix[i] {
            return false;
        }
        i = i + 1;
    }
    assert(name@.take(prefix@.len() as int) =~= prefix@);
    true
}

proof fn lemma_matching_step(l: Seq<(Vec<char>, EntryKind)>, part: Seq<char>, t: CompletionType, i: int)
    requires
        0 <= i < l.len(),
    ensures
        matching(l.take(i + 1), part) == if starts_with(l[i].0@, part) {
            matching(l.take(i), part).push(l[i])
        } else {
            matching(l.take(i), part)
        },
        suitable_names(matching(l.take(i + 1), part), t) == if starts_with(l[i].0@, part) && kind_ok(t, l[i].1) {
            suitable_names(matching(l.take(i), part), t).push(l[i].0@)
        } else {
            suitable_names(matching(l.take(i), part), t)
        },
{
    let p = |e: (Vec<char>, EntryKind)| starts_with(e.0@, part);
    let q = |e: (Vec<char>, EntryKind)| kind_ok(t, e.1);
    let f = |e: (Vec<char>, EntryKind)| e.0@;
    assert(l.take(i + 1).drop_last() =~= l.take(i));
    assert(l.take(i + 1).last() == l[i]);
    reveal(Seq::filter);
    let m0 = matching(l.take(i), part);
    if starts_with(l[i].0@, part) {
        let m1 = m0.push(l[i]);
        assert(m1.drop_last() =~= m0);
        assert(m1.last() == l[i]);
        if kind_ok(t, l[i].1) {
            assert(m1.filter(q) == m0.filter(q).push(l[i]));
            assert(m0.filter(q).push(l[i]).map_values(f) =~= m0.filter(q).map_values(f).push(l[i].0@));
        } else {
            assert(m1.filter(q) == m0.filter(q));
        }
    }
}

/// Completes the last word of the line against the entries of the current
/// directory (`None` when they could not be listed).
///
/// A command that takes no path gets four spaces instead. Otherwise, the
/// entries whose name starts with the last word are the matches: a single
/// match of a kind the command takes replaces the last word (as many
/// characters are taken off the line as the word has bytes), several matches
/// are listed (those of a kind the command takes), and anything else leaves
/// the line as it is.
pub fn tab_completion(line: &mut Vec<char>, listing: Option<&Vec<(Vec<char>, EntryKind)>>) -> (r: Completion)
    ensures
        ({
            let ty = completion_type_spec(first_word(old(line)@));
            let part = last_word(old(line)@);
            if ty == CompletionType::Disabled {
                r is Indent && final(line)@ == old(line)@ + seq![' ', ' ', ' ', ' ']
            } else {
                match listing {
                    None => r is Nothing && final(line)@ == old(line)@,
                    Some(l) => {
                        let ms = matching(l@, part);
                        if ms.len() == 1 && kind_ok(ty, ms[0].1) {
                            let erase = if utf8_len(part) < old(line)@.len() {
                                utf8_len(part)
                            } else {
                                old(line)@.len()
                            };
                            &&& r matches Completion::Replace { erase: e, text } && e == erase && text@
                                == ms[0].0@
                            &&& final(line)@ == old(line)@.take(old(line)@.len() - erase) + ms[0].0@
                        } else if ms.len() > 1 {
                            &&& r matches Completion::List(names) && names@.map_values(|v: Vec<char>| v@)
                                == suitable_names(ms, ty)
                            &&& final(line)@ == old(line)@
                        } else {
                            r is Nothing && final(line)@ == old(line)@
                        }
                    },
                }
            }
        }),
{
    let sp = find_first_space(line);
    let ws = find_last_word(line);
    proof {
        lemma_first_space_bound(line@, 0);
    }
    let word = copy_range(line, 0, sp);
    let ty = command_supports_completion(word.as_slice());
    if ty == CompletionType::Disabled {
        line.push(' ');
        line.push(' ');
        line.push(' ');
        line.push(' ');
        assert(line@ =~= old(line)@ + seq![' ', ' ', ' ', ' ']);
        return Completion::Indent;
    }
    let listing = match listing {
        None => return Completion::Nothing,
        Some(l) => l,
    };
    let part = copy_range(line, ws, line.len());
    assert(part@ =~= last_word(line@));
    let ghost l = listing@;
    let mut count: usize = 0;
    let mut first: usize = 0;
    let mut names: Vec<Vec<char>> = Vec::new();
    let mut i: usize = 0;
    while i < listing.len()
        invariant
            l == listing@,
            ty != CompletionType::Disabled,
            i <= l.len(),
            count == matching(l.take(i as int), part@).len(),
            count <= i,
            count > 0 ==> first < i && l[first as int] == matching(l.take(i as int), part@)[0],
            names@.map_values(|v: Vec<char>| v@) == suitable_names(matching(l.take(i as int), part@), ty),
        decreases l.len() - i,
    {
        proof {
            lemma_matching_step(l, part@, ty, i as int);
        }
        let name = &listing[i].0;
        if has_prefix(name, &part) {
            if count == 0 {
                first = i;
            }
            let kind = listing[i].1;
            let ok = match ty {
                CompletionType::File => kind == EntryKind::File,
                CompletionType::Directory => kind == EntryKind::Directory,
                _ => true,
            };
            if ok {
                let ghost before = names@;
                let copied = copy_range(name, 0, name.len());
                assert(copied@ =~= l[i as int].0@);
                names.push(copied);
                proof {
                    assert(names@.map_values(|v: Vec<char>| v@) =~= before.map_values(|v: Vec<char>| v@).push(
                        l[i as int].0@,
                    ));
                }
            }
            count = count + 1;
        }
        i = i + 1;
    }
    assert(l.take(l.len() as int) =~= l);
    if count == 1 {
        let kind = listing[first].1;
        let ok = match ty {
            CompletionType::File => kind == EntryKind::File,
            CompletionType::Directory => kind == EntryKind::Directory,
            _ => true,
        };
        if ok {
            let erase = capped_utf8_len(line, ws, line.len());
            proof {
                assert(line@.skip(ws as int) =~= part@);
            }
            let keep = line.len() - erase;
            line.truncate(keep);
            let text = copy_range(&listing[first].0, 0, listing[first].0.len());
            let mut j: usize = 0;
            let ghost base = line@;
            while j < text.len()
                invariant
                    j <= text@.len(),
                    line@ == base + text@.take(j as int),
                decreases text@.len() - j,
            {
                line.push(text[j]);
                j = j + 1;
                assert(line@ =~= base + text@.take(j as int));
            }
            assert(text@.take(text@.len() as int) =~= text@);
            assert(text@ =~= listing@[first as int].0@);
            return Completion::Replace { erase, text };
        }
        return Completion::Nothing;
    }
    if count > 1 {
        return Completion::List(names);
    }
    Completion::Nothing
}

/// What a step through the command history asks the screen to show.
#[derive(Debug, Clone, Copy, PartialEq, Eq)]
pub enum HistoryMove {
    /// The history is empty: nothing changed.
    Nothing,
    /// The line was emptied: erase this many characters on screen.
    Cleared(usize),
    /// The line was replaced by a command of the history: erase this many
    /// characters on screen, then echo the new line.
    Recalled(usize),
}

/// Replaces the line by a copy of `text`.
fn set_line(line: &mut Vec<char>, text: &Vec<char>)
    ensures
        final(line)@ == text@,
{
    line.clear();
    let mut j: usize = 0;
    while j < text.len()
        invariant
            j <= text@.len(),
            line@ == text@.take(j as int),
        decreases text@.len() - j,
    {
        line.push(text[j]);
        j = j + 1;
        assert(line@ =~= text@.take(j as int));
    }
    assert(text@.take(text@.len() as int) =~= text@);
}

/// Steps back through the command history: unless the history is empty,
/// the index moves one command back (staying at the oldest) and the line
/// becomes that command.
pub fn uparrow_completion(line: &mut Vec<char>, history: &Vec<Vec<char>>, index: &mut usize) -> (r: HistoryMove)
    requires
        history@.len() > 0 ==> (if *old(index) > 0 { *old(index) - 1 } else { 0 }) < history@.len(),
    ensures
        history@.len() == 0 ==> r == HistoryMove::Nothing && final(line)@ == old(line)@ && *final(index)
            == *old(index),
        history@.len() > 0 ==> {
            &&& *final(index) == (if *old(index) > 0 { *old(index) - 1 } else { 0 })
            &&& final(line)@ == history@[*final(index) as int]@
            &&& r == HistoryMove::Recalled(old(line)@.len() as usize)
        },
{
    if history.len() == 0 {
        return HistoryMove::Nothing;
    }
    if *index > 0 {
        *index = *index - 1;
    }
    let erased = line.len();
    set_line(line, &history[*index]);
    HistoryMove::Recalled(erased)
}

/// Steps forward through the command history: unless the history is
/// empty, at the newest command the line is only emptied; otherwise the
/// index moves one command forward and the line becomes that command.
pub fn downarrow_completion(line: &mut Vec<char>, history: &Vec<Vec<char>>, index: &mut usize) -> (r: HistoryMove)
    ensures
        history@.len() == 0 ==> r == HistoryMove::Nothing && final(line)@ == old(line)@ && *final(index)
            == *old(index),
        history@.len() > 0 && *old(index) >= history@.len() - 1 ==> {
            &&& *final(index) == *old(index)
            &&& final(line)@ == Seq::<char>::empty()
            &&& r == HistoryMove::Cleared(old(line)@.len() as usize)
        },
        history@.len() > 0 && *old(index) < history@.len() - 1 ==> {
            &&& *final(index) == *old(index) + 1
            &&& final(line)@ == history@[*final(index) as int]@
            &&& r == HistoryMove::Recalled(old(line)@.len() as usize)
        },
{
    if history.len() == 0 {
        return HistoryMove::Nothing;
    }
    let erased = line.len();
    if *index >= history.len() - 1 {
        line.clear();
        return HistoryMove::Cleared(erased);
    }
    *index = *index + 1;
    set_line(line, &history[*index]);
    HistoryMove::Recalled(erased)
}

/// Whether a character has the Unicode `White_Space` property, as
/// `char::is_whitespace` decides.
pub open spec fn is_whitespace_spec(c: char) -> bool {
    let v = c as u32;
    (0x09 <= v <= 0x0D) || v == 0x20 || v == 0x85 || v == 0xA0 || v == 0x1680 || (0x2000 <= v <= 0x200A)
        || v == 0x2028 || v == 0x2029 || v == 0x202F || v == 0x205F || v == 0x3000
}

pub(crate) fn is_whitespace(c: char) -> (r: bool)
    ensures
        r == is_whitespace_spec(c),
{
    let v = c as u32;
    (0x09 <= v && v <= 0x0D) || v == 0x20 || v == 0x85 || v == 0xA0 || v == 0x1680 || (0x2000 <= v && v
        <= 0x200A) || v == 0x2028 || v == 0x2029 || v == 0x202F || v == 0x205F || v == 0x3000
}

/// Whether a line is empty once surrounding white space is trimmed.
pub open spec fn blank(line: Seq<char>) -> bool {
    forall|i: int| 0 <= i < line.len() ==> is_whitespace_spec(#[trigger] line[i])
}

fn is_blank(line: &Vec<char>) -> (r: bool)
    ensures
        r == blank(line@),
{
    let mut i: usize = 0;
    while i < line.len()
        invariant
            i <= line@.len(),
            forall|j: int| 0 <= j < i ==> is_whitespace_spec(#[trigger] line@[j]),
        decreases line@.len() - i,
    {
        if !is_whitespace(line[i]) {
            return false;
        }
        i = i + 1;
    }
    true
}

/// The low byte of a character's code, which the shell compares against
/// control codes.
pub open spec fn low_byte(c: char) -> u32 {
    (c as u32) % 256
}

/// What a key asks of the shell once the line was updated.
#[derive(Debug)]
pub enum KeyAction {
    /// Nothing to do.
    Nothing,
    /// Control was pressed: print `^C` and a fresh prompt.
    Interrupt,
    /// Step back through the command history.
    HistoryUp,
    /// Step forward through the command history.
    HistoryDown,
    /// One character was erased: erase it on screen.
    Backspace,
    /// Escape: clear the screen and print a fresh prompt.
    ClearScreen,
    /// Four spaces were added to the line: echo them.
    Indent,
    /// Complete the line with the tab key.
    Complete,
    /// Echo the character.
    Echo(char),
    /// Echo the newline and run this command line.
    Run(Vec<char>),
}

/// What a decoded key does to the line being typed.
///
/// Control keys interrupt the line; the arrow keys ask for the history.
/// Of characters, compared by the low byte of their code: backspace (8)
/// erases the last character, escape (27) drops the line, tab (9) adds four
/// spaces to a blank line and asks for completion otherwise; a newline runs
/// a non-empty line; any other character is added to the line and echoed.
pub fn handle_key(line: &mut Vec<char>, key: &DecodedKey) -> (r: KeyAction)
    ensures
        match *key {
            DecodedKey::RawKey(k) => if k == KeyCode::LControl || k == KeyCode::RControl || k
                == KeyCode::RControl2 {
                r is Interrupt && final(line)@ == Seq::<char>::empty()
            } else if k == KeyCode::ArrowUp {
                r is HistoryUp && final(line)@ == old(line)@
            } else if k == KeyCode::ArrowDown {
                r is HistoryDown && final(line)@ == old(line)@
            } else {
                r is Nothing && final(line)@ == old(line)@
            },
            DecodedKey::Unicode(c) => if low_byte(c) == 8 {
                if old(line)@.len() > 0 {
                    r is Backspace && final(line)@ == old(line)@.drop_last()
                } else {
                    r is Nothing && final(line)@ == old(line)@
                }
            } else if low_byte(c) == 27 {
                r is ClearScreen && final(line)@ == Seq::<char>::empty()
            } else if low_byte(c) == 9 {
                if blank(old(line)@) {
                    r is Indent && final(line)@ == old(line)@ + seq![' ', ' ', ' ', ' ']
                } else {
                    r is Complete && final(line)@ == old(line)@
                }
            } else if c == '\n' {
                if old(line)@.len() > 0 {
                    (r matches KeyAction::Run(cmd) && cmd@ == old(line)@) && final(line)@ == Seq::<
                        char,
                    >::empty()
                } else {
                    r == KeyAction::Echo('\n') && final(line)@ == old(line)@
                }
            } else {
                r == KeyAction::Echo(c) && final(line)@ == old(line)@.push(c)
            },
        },
{
    match key {
        DecodedKey::RawKey(k) => {
            let k = *k;
            if k == KeyCode::LControl || k == KeyCode::RControl || k == KeyCode::RControl2 {
                line.clear();
                KeyAction::Interrupt
            } else if k == KeyCode::ArrowUp {
                KeyAction::HistoryUp
            } else if k == KeyCode::ArrowDown {
                KeyAction::HistoryDown
            } else {
                KeyAction::Nothing
            }
        },
        DecodedKey::Unicode(c) => {
            let c = *c;
            let b = (c as u32) % 256;
            if b == 8 {
                if line.len() > 0 {
                    line.pop();
                    KeyAction::Backspace
                } else {
                    KeyAction::Nothing
                }
            } else if b == 27 {
                line.clear();
                KeyAction::ClearScreen
            } else if b == 9 {
                if is_blank(line) {
                    line.push(' ');
                    line.push(' ');
                    line.push(' ');
                    line.push(' ');
                    assert(line@ =~= old(line)@ + seq![' ', ' ', ' ', ' ']);
                    KeyAction::Indent
                } else {
                    KeyAction::Complete
                }
            } else if c == '\n' {
                if line.len() > 0 {
                    let cmd = copy_range(line, 0, line.len());
                    assert(cmd@ =~= old(line)@);
                    line.clear();
                    KeyAction::Run(cmd)
                } else {
                    KeyAction::Echo('\n')
                }
            } else {
                line.push(c);
                KeyAction::Echo(c)
            }
        },
    }
}

/// What the screen shows for a character fed to a waiting program.
#[derive(Debug, Clone, Copy, PartialEq, Eq)]
pub enum StdinEcho {
    /// A newline went in and a line is ready: echo the newline.
    LineReady,
    /// A byte was taken back: erase it on screen.
    Erased,
    /// Backspace with nothing to take back.
    Nothing,
    /// The character went in: echo it.
    Echo(char),
}

/// The standard input and the echo after feeding it character `c`.
pub open spec fn stdin_after(c: char, s: Seq<u8>) -> (StdinEcho, Seq<u8>) {
    if c == '\n' {
        (StdinEcho::LineReady, s.push(10u8))
    } else if low_byte(c) == 8 {
        if s.len() > 0 {
            (StdinEcho::Erased, s.drop_last())
        } else {
            (StdinEcho::Nothing, s)
        }
    } else {
        (StdinEcho::Echo(c), s.push(low_byte(c) as u8))
    }
}

/// Feeds one typed character to the standard input of a waiting program:
/// a newline goes in and readies the line, backspace (low byte 8) takes the
/// last byte back, and any other character goes in as its low byte.
pub fn handle_stdin_char(c: char, stdin: &mut VecDeque<u8>) -> (r: StdinEcho)
    ensures
        (r, final(stdin)@) == stdin_after(c, old(stdin)@),
{
    if c == '\n' {
        stdin.push_back(10u8);
        StdinEcho::LineReady
    } else if (c as u32) % 256 == 8 {
        match stdin.pop_back() {
            Some(_) => StdinEcho::Erased,
            None => StdinEcho::Nothing,
        }
    } else {
        stdin.push_back(((c as u32) % 256) as u8);
        StdinEcho::Echo(c)
    }
}

/// What the keyboard's event decoder makes of `ev`: the decoded key, and
/// the modifiers afterwards.
pub open spec fn decoded_event<L: KeyboardLayout, S: ScancodeSet>(kb: Keyboard<L, S>, ev: KeyEvent) -> (
    Option<DecodedKey>,
    Modifiers,
) {
    let m = kb.events_spec().modifiers_spec();
    match modifier_step(m, ev) {
        Some((m2, out)) => (out, m2),
        None => (
            if ev.state == KeyState::Down {
                Some(kb.events_spec().layout_spec().map_keycode_spec(ev.code, m, kb.events_spec().handle_ctrl_spec()))
            } else {
                None
            },
            m,
        ),
    }
}

/// Whether the scancode set's answer `res`, handed on by keyboard `kb`,
/// leaves keyboard `kb2`, answer `r` and standard input `s1` (from `s0`): a
/// key event goes through the event decoder, and a character it yields goes
/// to the standard input as `stdin_after` says; any other answer changes
/// nothing and gives `None`.
pub open spec fn stdin_key_step<L: KeyboardLayout, S: ScancodeSet>(
    kb: Keyboard<L, S>,
    res: Result<Option<KeyEvent>, KeyboardError>,
    kb2: Keyboard<L, S>,
    r: Option<StdinEcho>,
    s0: Seq<u8>,
    s1: Seq<u8>,
) -> bool {
    match res {
        Ok(Some(ev)) => {
            &&& kb2.ps2_spec() == kb.ps2_spec()
            &&& kb2.events_spec().handle_ctrl_spec() == kb.events_spec().handle_ctrl_spec()
            &&& kb2.events_spec().layout_spec() == kb.events_spec().layout_spec()
            &&& kb2.events_spec().modifiers_spec() == decoded_event(kb, ev).1
            &&& match decoded_event(kb, ev).0 {
                Some(DecodedKey::Unicode(c)) => r == Some(stdin_after(c, s0).0) && s1 == stdin_after(c, s0).1,
                _ => r is None && s1 == s0,
            }
        },
        _ => r is None && kb2 == kb && s1 == s0,
    }
}

/// Hands the scancode set's answer for a scancode on to a waiting program:
/// a key event goes through the keyboard's event decoder, and a character
/// it yields goes to the standard input.
pub fn feed_key_result<L: KeyboardLayout, S: ScancodeSet>(
    keyboard: &mut Keyboard<L, S>,
    res: Result<Option<KeyEvent>, KeyboardError>,
    stdin: &mut VecDeque<u8>,
) -> (r: Option<StdinEcho>)
    ensures
        stdin_key_step(*old(keyboard), res, *final(keyboard), r, old(stdin)@, final(stdin)@),
{
    if let Ok(Some(key_event)) = res {
        if let Some(decoded) = keyboard.process_keyevent(key_event) {
            if let DecodedKey::Unicode(c) = decoded {
                let e = handle_stdin_char(c, stdin);
                return Some(e);
            }
        }
    }
    None
}

/// Feeds a scancode from the keyboard interrupt to a program waiting for
/// input: only while a program waits, the scancode goes to the keyboard's
/// scancode set, and its answer is handed on as `feed_key_result` does.
/// The scancode set is the caller's, so its answer is not fixed here: what
/// holds is that some answer, with the rest of the keyboard as it was,
/// gives the result.
pub fn process_scancode_for_stdin<L: KeyboardLayout, S: ScancodeSet>(
    keyboard: &mut Keyboard<L, S>,
    program_waiting: bool,
    scancode: u8,
    stdin: &mut VecDeque<u8>,
) -> (r: Option<StdinEcho>)
    ensures
        !program_waiting ==> r is None && *final(keyboard) == *old(keyboard) && final(stdin)@ == old(stdin)@,
        program_waiting ==> exists|mid: Keyboard<L, S>, res: Result<Option<KeyEvent>, KeyboardError>|
            mid.ps2_spec() == old(keyboard).ps2_spec() && mid.events_spec() == old(keyboard).events_spec()
                && #[trigger] stdin_key_step(mid, res, *final(keyboard), r, old(stdin)@, final(stdin)@),
{
    if !program_waiting {
        return None;
    }
    let res = keyboard.add_byte(scancode);
    let ghost mid = *keyboard;
    let r = feed_key_result(keyboard, res, stdin);
    assert(stdin_key_step(mid, res, *keyboard, r, old(stdin)@, stdin@));
    r
}

} // verus!
