//! Overriding lines of a configuration file by variables of the
//! environment: what a line is, which variable stands for it, and what the
//! line becomes.
//!
//! A line is looked at without the whitespace around it and without its
//! blanks. The variable of an entry is named by a prefix, the section and
//! the key, in upper case and joined by underscores; a dot in the key counts
//! as an underscore. An entry belongs to the section whose head stands last
//! before it. Where several entries have the same variable, the variable
//! overrides the last of them.

use vstd::prelude::*;
use crate::base::text::{concat2, opt_text, opt_texts, str_chars, str_eq, texts};

verus! {

/// What a line of a configuration file is, as contracts see it.
pub enum LineView {
    /// Nothing to override: the line is empty, a comment, or holds no `=`.
    Skip,
    /// The head of a section, with the name between its brackets.
    Section(Seq<char>),
    /// An entry, with its key: what stands before the first `=`.
    Entry(Seq<char>),
}

/// What a line of a configuration file is.
#[derive(Debug, Clone, PartialEq, Eq)]
pub enum LineKind {
    /// Nothing to override: the line is empty, a comment, or holds no `=`.
    Skip,
    /// The head of a section, with the name between its brackets.
    Section(String),
    /// An entry, with its key: what stands before the first `=`.
    Entry(String),
}

impl View for LineKind {
    type V = LineView;

    open spec fn view(&self) -> LineView {
        match self {
            LineKind::Skip => LineView::Skip,
            LineKind::Section(name) => LineView::Section(name@),
            LineKind::Entry(key) => LineView::Entry(key@),
        }
    }
}

/// The position of the first `c` in `s` from `from` on; the length of `s`
/// where there is none.
pub open spec fn first_index_of(s: Seq<char>, c: char, from: int) -> int
    decreases s.len() - from,
{
    if from < 0 || from >= s.len() {
        s.len() as int
    } else if s[from] == c {
        from
    } else {
        first_index_of(s, c, from + 1)
    }
}

/// What stands before the first `=` of a line; the whole line where it
/// holds none.
pub open spec fn before_equals(line: Seq<char>) -> Seq<char> {
    line.subrange(0, first_index_of(line, '=', 0))
}

/// What a line without blanks is.
pub open spec fn line_kind(line: Seq<char>) -> LineView {
    if line.len() == 0 || line[0] == '#' {
        LineView::Skip
    } else if line[0] == '[' {
        if line.len() >= 2 {
            LineView::Section(line.subrange(1, line.len() - 1))
        } else {
            LineView::Section(Seq::empty())
        }
    } else if first_index_of(line, '=', 0) < line.len() {
        LineView::Entry(before_equals(line))
    } else {
        LineView::Skip
    }
}

/// A dot counts as an underscore.
pub open spec fn dot_to_underscore(c: char) -> char {
    if c == '.' {
        '_'
    } else {
        c
    }
}

/// The text with an underscore for every dot.
pub open spec fn underscored(s: Seq<char>) -> Seq<char> {
    Seq::new(s.len(), |i: int| dot_to_underscore(s[i]))
}

/// The name of the variable that overrides the entry `key` of `section`,
/// both given in upper case.
pub open spec fn env_key_of(prefix: Seq<char>, section: Seq<char>, key: Seq<char>) -> Seq<char> {
    prefix + "_"@ + section + "_"@ + underscored(key)
}

/// The line with `value` in place of what follows its first `=`; the line
/// with `=` and the value at its end where it holds no `=`.
pub open spec fn overridden(line: Seq<char>, value: Seq<char>) -> Seq<char> {
    before_equals(line) + "="@ + value
}

fn find_char(s: &Vec<char>, c: char, from: usize) -> (at: usize)
    requires
        from <= s.len(),
    ensures
        at == first_index_of(s@, c, from as int),
        from <= at <= s.len(),
        at < s.len() ==> s@[at as int] == c,
{
    let mut i: usize = from;
    while i < s.len()
        invariant
            from <= i <= s.len(),
            first_index_of(s@, c, from as int) == first_index_of(s@, c, i as int),
        decreases s.len() - i,
    {
        if s[i] == c {
            return i;
        }
        i += 1;
    }
    i
}

/// Tells what a line is. The line is given without its blanks.
pub fn classify_line(line: &str) -> (kind: LineKind)
    ensures
        kind@ == line_kind(line@),
{
    let chars: Vec<char> = str_chars(line);
    let len: usize = chars.len();
    if len == 0 || chars[0] == '#' {
        LineKind::Skip
    } else if chars[0] == '[' {
        if len >= 2 {
            LineKind::Section(line.substring_char(1, len - 1).to_owned())
        } else {
            LineKind::Section(String::new())
        }
    } else {
        let at: usize = find_char(&chars, '=', 0);
        if at < len {
            LineKind::Entry(line.substring_char(0, at).to_owned())
        } else {
            LineKind::Skip
        }
    }
}

/// The name of the variable that overrides the entry `key` of `section`.
/// The section and the key are given in upper case.
pub fn env_key(prefix: &str, section: &str, key: &str) -> (name: String)
    ensures
        name@ == env_key_of(prefix@, section@, key@),
{
    let mut name: String = concat2(prefix, "_");
    name.append(section);
    name.append("_");
    let ghost head = name@;
    let n: usize = key.unicode_len();
    let mut i: usize = 0;
    while i < n
        invariant
            n == key@.len(),
            i <= n,
            name@ == head + underscored(key@).subrange(0, i as int),
        decreases n - i,
    {
        let c: char = key.get_char(i);
        if c == '.' {
            proof {
                reveal_strlit("_");
            }
            name.append("_");
        } else {
            name.append(key.substring_char(i, i + 1));
        }
        assert(name@ =~= head + underscored(key@).subrange(0, i + 1));
        i += 1;
    }
    assert(underscored(key@).subrange(0, n as int) =~= underscored(key@));
    name
}

/// The line with `value` in place of what follows its first `=`.
pub fn override_line(line: &str, value: &str) -> (r: String)
    ensures
        r@ == overridden(line@, value@),
{
    let chars: Vec<char> = str_chars(line);
    let at: usize = find_char(&chars, '=', 0);
    let mut r: String = line.substring_char(0, at).to_owned();
    r.append("=");
    r.append(value);
    r
}

/// Whether a character is whitespace.
pub uninterp spec fn white_space(c: char) -> bool;

/// The text in upper case.
pub uninterp spec fn uppercase_of(s: Seq<char>) -> Seq<char>;

/// `char::is_whitespace`: whether the character is whitespace, which
/// depends on the character alone.
#[verifier::external_body]
fn char_is_whitespace(c: char) -> (r: bool)
    ensures
        r == white_space(c),
{
    c.is_whitespace()
}

/// `str::to_uppercase`: the text in upper case, which depends on the text
/// alone.
#[verifier::external_body]
fn str_to_uppercase(s: &str) -> (r: String)
    ensures
        r@ == uppercase_of(s@),
{
    s.to_uppercase()
}

/// The line that stands between `at` and the line feed at `end`, or the end
/// of the text: a carriage return before the line feed is no part of it.
pub open spec fn line_between(s: Seq<char>, at: int, end: int) -> Seq<char> {
    if end < s.len() && at < end && s[end - 1] == '\r' {
        s.subrange(at, end - 1)
    } else {
        s.subrange(at, end)
    }
}

/// The lines of a text from `at` on. A line ends at a line feed, or at the
/// end of the text.
pub open spec fn lines_from(s: Seq<char>, at: int) -> Seq<Seq<char>>
    decreases s.len() - at,
{
    if at < 0 || at >= s.len() {
        Seq::empty()
    } else {
        let end = first_index_of(s, '\n', at);
        if end < at {
            Seq::empty()
        } else if end >= s.len() {
            seq![line_between(s, at, end)]
        } else {
            seq![line_between(s, at, end)] + lines_from(s, end + 1)
        }
    }
}

/// The lines of a text.
pub open spec fn lines_of(s: Seq<char>) -> Seq<Seq<char>> {
    lines_from(s, 0)
}

/// The position of the first character from `at` on that is no whitespace;
/// the length of the text where there is none.
pub open spec fn lead_end(s: Seq<char>, at: int) -> int
    decreases s.len() - at,
{
    if at < 0 || at >= s.len() {
        s.len() as int
    } else if white_space(s[at]) {
        lead_end(s, at + 1)
    } else {
        at
    }
}

/// The position behind the last character before `end` that is no
/// whitespace; 0 where there is none.
pub open spec fn tail_start(s: Seq<char>, end: int) -> int
    decreases end,
{
    if end <= 0 || end > s.len() {
        0
    } else if white_space(s[end - 1]) {
        tail_start(s, end - 1)
    } else {
        end
    }
}

/// The text without the whitespace at its two ends.
pub open spec fn trimmed(s: Seq<char>) -> Seq<char> {
    if lead_end(s, 0) >= s.len() {
        Seq::empty()
    } else {
        s.subrange(lead_end(s, 0), tail_start(s, s.len() as int))
    }
}

/// Selects the characters that are no blanks.
pub open spec fn no_blank() -> spec_fn(char) -> bool {
    |c: char| c != ' '
}

/// A line as it is looked at: without the whitespace around it and without
/// its blanks.
pub open spec fn bare(line: Seq<char>) -> Seq<char> {
    trimmed(line).filter(no_blank())
}

/// The section to which line `i` belongs: the name in the head that stands
/// last before the line; the empty name where none does.
pub open spec fn section_before(lines: Seq<Seq<char>>, i: int) -> Seq<char>
    decreases i,
{
    if i <= 0 || i > lines.len() {
        Seq::empty()
    } else {
        match line_kind(bare(lines[i - 1])) {
            LineView::Section(name) => name,
            _ => section_before(lines, i - 1),
        }
    }
}

/// The variable that overrides line `i`, where the line is an entry.
pub open spec fn variable_of(lines: Seq<Seq<char>>, prefix: Seq<char>, i: int) -> Option<
    Seq<char>,
> {
    match line_kind(bare(lines[i])) {
        LineView::Entry(key) => Some(
            env_key_of(prefix, uppercase_of(section_before(lines, i)), uppercase_of(key)),
        ),
        _ => None,
    }
}

/// The variables of the lines, line by line.
pub open spec fn variables_of(lines: Seq<Seq<char>>, prefix: Seq<char>) -> Seq<Option<Seq<char>>> {
    Seq::new(lines.len(), |i: int| variable_of(lines, prefix, i))
}

/// Whether a later line has the variable of line `i`.
pub open spec fn shadowed(vars: Seq<Option<Seq<char>>>, i: int) -> bool {
    exists|j: int| i < j < vars.len() && #[trigger] vars[j] == vars[i]
}

/// The names and values of a list of variables.
pub open spec fn pairs(env: Seq<(String, String)>) -> Seq<(Seq<char>, Seq<char>)> {
    env.map_values(|p: (String, String)| (p.0@, p.1@))
}

/// The value of the first variable called `name` from position `at` on.
pub open spec fn value_from(env: Seq<(Seq<char>, Seq<char>)>, name: Seq<char>, at: int) -> Option<
    Seq<char>,
>
    decreases env.len() - at,
{
    if at < 0 || at >= env.len() {
        None
    } else if env[at].0 == name {
        Some(env[at].1)
    } else {
        value_from(env, name, at + 1)
    }
}

/// The value of the variable called `name`, if the list has one.
pub open spec fn value_in(env: Seq<(Seq<char>, Seq<char>)>, name: Seq<char>) -> Option<Seq<char>> {
    value_from(env, name, 0)
}

/// What line `i` becomes: an entry whose variable has a value, and is the
/// variable of no later line, takes that value; every other line stays.
pub open spec fn line_after(
    lines: Seq<Seq<char>>,
    prefix: Seq<char>,
    env: Seq<(Seq<char>, Seq<char>)>,
    i: int,
) -> Seq<char> {
    match variable_of(lines, prefix, i) {
        Some(name) => match value_in(env, name) {
            Some(value) => if shadowed(variables_of(lines, prefix), i) {
                lines[i]
            } else {
                overridden(lines[i], value)
            },
            None => lines[i],
        },
        None => lines[i],
    }
}

/// What the lines become, line by line.
pub open spec fn lines_after(
    lines: Seq<Seq<char>>,
    prefix: Seq<char>,
    env: Seq<(Seq<char>, Seq<char>)>,
) -> Seq<Seq<char>> {
    Seq::new(lines.len(), |i: int| line_after(lines, prefix, env, i))
}

/// The lines in a row, with a line feed between one and the next.
pub open spec fn joined_lines(lines: Seq<Seq<char>>) -> Seq<char>
    decreases lines.len(),
{
    if lines.len() == 0 {
        Seq::empty()
    } else if lines.len() == 1 {
        lines[0]
    } else {
        joined_lines(lines.drop_last()) + "\n"@ + lines.last()
    }
}

/// The text of a configuration after the variables of `env` have overridden
/// its entries.
pub open spec fn overridden_text(
    content: Seq<char>,
    prefix: Seq<char>,
    env: Seq<(Seq<char>, Seq<char>)>,
) -> Seq<char> {
    joined_lines(lines_after(lines_of(content), prefix, env))
}

/// The lines of a text.
pub fn split_lines(content: &str) -> (lines: Vec<String>)
    ensures
        texts(lines@) == lines_of(content@),
{
    let chars: Vec<char> = str_chars(content);
    let n: usize = chars.len();
    let mut lines: Vec<String> = Vec::new();
    let mut at: usize = 0;
    assert(texts(lines@) + lines_from(content@, 0) =~= lines_of(content@));
    while at < n
        invariant
            chars@ == content@,
            n == chars.len(),
            at <= n,
            texts(lines@) + lines_from(content@, at as int) == lines_of(content@),
        decreases n - at,
    {
        let end: usize = find_char(&chars, '\n', at);
        let stop: usize = if end < n && at < end && chars[end - 1] == '\r' {
            end - 1
        } else {
            end
        };
        let ghost before = texts(lines@);
        let line: String = content.substring_char(at, stop).to_owned();
        assert(line@ == line_between(content@, at as int, end as int));
        lines.push(line);
        let next: usize = if end < n {
            end + 1
        } else {
            n
        };
        proof {
            assert(texts(lines@) =~= before.push(line_between(content@, at as int, end as int)));
            if end >= n {
                assert(lines_from(content@, next as int) =~= Seq::<Seq<char>>::empty());
            }
            assert(texts(lines@) + lines_from(content@, next as int) =~= before + lines_from(
                content@,
                at as int,
            ));
        }
        at = next;
    }
    assert(texts(lines@) + lines_from(content@, at as int) =~= texts(lines@));
    lines
}

/// A line as it is looked at: without the whitespace around it and without
/// its blanks.
pub fn bare_line(line: &str) -> (r: String)
    ensures
        r@ == bare(line@),
{
    let chars: Vec<char> = str_chars(line);
    let n: usize = chars.len();
    let mut from: usize = 0;
    while from < n && char_is_whitespace(chars[from])
        invariant
            chars@ == line@,
            n == chars.len(),
            from <= n,
            lead_end(line@, 0) == lead_end(line@, from as int),
        decreases n - from,
    {
        from += 1;
    }
    let mut r: String = String::new();
    if from >= n {
        proof {
            reveal(Seq::filter);
        }
        return r;
    }
    let mut to: usize = n;
    while to > from && char_is_whitespace(chars[to - 1])
        invariant
            chars@ == line@,
            n == chars.len(),
            from < to <= n,
            !white_space(line@[from as int]),
            tail_start(line@, n as int) == tail_start(line@, to as int),
        decreases to,
    {
        to -= 1;
    }
    assert(trimmed(line@) == line@.subrange(from as int, to as int));
    let mut i: usize = from;
    proof {
        reveal(Seq::filter);
        assert(line@.subrange(from as int, from as int) =~= Seq::<char>::empty());
    }
    while i < to
        invariant
            chars@ == line@,
            from <= i <= to <= n,
            n == chars.len(),
            r@ == line@.subrange(from as int, i as int).filter(no_blank()),
        decreases to - i,
    {
        let c: char = chars[i];
        proof {
            let next = line@.subrange(from as int, i + 1);
            assert(next.drop_last() =~= line@.subrange(from as int, i as int));
            assert(next.last() == c);
            reveal(Seq::filter);
        }
        if c != ' ' {
            let piece: &str = line.substring_char(i, i + 1);
            assert(piece@ =~= seq![c]);
            r.append(piece);
        }
        i += 1;
    }
    r
}

/// The variables of the lines, line by line.
pub fn variables(lines: &Vec<String>, env_prefix: &str) -> (vars: Vec<Option<String>>)
    ensures
        opt_texts(vars@) == variables_of(texts(lines@), env_prefix@),
{
    let ghost all = texts(lines@);
    let mut vars: Vec<Option<String>> = Vec::new();
    let mut sub_key: String = String::new();
    let mut i: usize = 0;
    while i < lines.len()
        invariant
            i <= lines.len(),
            all == texts(lines@),
            sub_key@ == section_before(all, i as int),
            vars@.len() == i,
            forall|k: int|
                0 <= k < i ==> opt_text(#[trigger] vars@[k]) == variable_of(all, env_prefix@, k),
        decreases lines.len() - i,
    {
        assert(all[i as int] == lines@[i as int]@);
        let trimmed_line: String = bare_line(lines[i].as_str());
        match classify_line(trimmed_line.as_str()) {
            LineKind::Skip => {
                vars.push(None);
            },
            LineKind::Section(name) => {
                sub_key = name;
                vars.push(None);
            },
            LineKind::Entry(key) => {
                let section: String = str_to_uppercase(sub_key.as_str());
                let upper_key: String = str_to_uppercase(key.as_str());
                vars.push(Some(env_key(env_prefix, section.as_str(), upper_key.as_str())));
            },
        }
        i += 1;
    }
    assert(opt_texts(vars@) =~= variables_of(all, env_prefix@));
    vars
}

fn has_later(vars: &Vec<Option<String>>, i: usize, name: &str) -> (r: bool)
    requires
        i < vars.len(),
        opt_text(vars@[i as int]) == Some(name@),
    ensures
        r == shadowed(opt_texts(vars@), i as int),
{
    let ghost views = opt_texts(vars@);
    assert(views[i as int] == Some(name@));
    let mut j: usize = i + 1;
    while j < vars.len()
        invariant
            i < j <= vars.len(),
            views == opt_texts(vars@),
            views[i as int] == Some(name@),
            forall|k: int| i < k < j ==> #[trigger] views[k] != views[i as int],
        decreases vars.len() - j,
    {
        assert(views[j as int] == opt_text(vars@[j as int]));
        let same: bool = match &vars[j] {
            Some(other) => str_eq(other.as_str(), name),
            None => false,
        };
        if same {
            return true;
        }
        j += 1;
    }
    false
}

/// The value of the variable called `name`, if the list has one.
pub fn value_of_variable(env: &Vec<(String, String)>, name: &str) -> (r: Option<String>)
    ensures
        opt_text(r) == value_in(pairs(env@), name@),
{
    let ghost all = pairs(env@);
    let mut i: usize = 0;
    while i < env.len()
        invariant
            i <= env.len(),
            all == pairs(env@),
            value_in(all, name@) == value_from(all, name@, i as int),
        decreases env.len() - i,
    {
        assert(all[i as int] == (env@[i as int].0@, env@[i as int].1@));
        if str_eq(env[i].0.as_str(), name) {
            return Some(env[i].1.clone());
        }
        i += 1;
    }
    None
}

/// Puts the values of the variables of `env` in place of the values of the
/// entries of a configuration, and gives the text back line by line, with a
/// line feed between one line and the next.
pub fn override_by_values(toml_content: &str, env_prefix: &str, env: &Vec<(String, String)>) -> (r:
    String)
    ensures
        r@ == overridden_text(toml_content@, env_prefix@, pairs(env@)),
{
    let lines: Vec<String> = split_lines(toml_content);
    let vars: Vec<Option<String>> = variables(&lines, env_prefix);
    let ghost all = texts(lines@);
    let ghost after = lines_after(all, env_prefix@, pairs(env@));
    let mut r: String = String::new();
    let mut i: usize = 0;
    assert(after.subrange(0, 0) =~= Seq::<Seq<char>>::empty());
    assert(opt_texts(vars@).len() == vars@.len());
    assert(variables_of(all, env_prefix@).len() == lines@.len());
    while i < lines.len()
        invariant
            i <= lines.len(),
            all == texts(lines@),
            vars@.len() == lines@.len(),
            opt_texts(vars@) == variables_of(all, env_prefix@),
            after == lines_after(all, env_prefix@, pairs(env@)),
            r@ == joined_lines(after.subrange(0, i as int)),
        decreases lines.len() - i,
    {
        assert(all[i as int] == lines@[i as int]@);
        assert(opt_texts(vars@)[i as int] == opt_text(vars@[i as int]));
        let value: Option<String> = match &vars[i] {
            Some(name) => {
                if has_later(&vars, i, name.as_str()) {
                    None
                } else {
                    value_of_variable(env, name.as_str())
                }
            },
            None => None,
        };
        let line: String = match value {
            Some(value) => override_line(lines[i].as_str(), value.as_str()),
            None => lines[i].clone(),
        };
        assert(line@ == after[i as int]);
        proof {
            let done = after.subrange(0, i as int);
            let next = after.subrange(0, i + 1);
            assert(next.drop_last() =~= done);
            assert(next.last() == after[i as int]);
            if i == 0 {
                assert(next[0] == after[0]);
            }
        }
        if i > 0 {
            r.append("\n");
        }
        r.append(line.as_str());
        i += 1;
    }
    assert(after.subrange(0, i as int) =~= after);
    r
}

} // verus!
