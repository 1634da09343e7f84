//! The change-trigger engine: rule parsing, matching and firing decisions.
//!
//! A rule fires on a value transition when its kind matches, its path
//! pattern and the canonical path `/<module>/<field>` match each other in
//! either direction, and its operator accepts the transition. Threshold
//! operators are edge-triggered: they fire when the value crosses the
//! threshold, not while it stays past it.
use vstd::prelude::*;
use crate::error::CerebroError;
use crate::text::{parse_i64, parse_i64_spec, str_equal, string_from_chars};

verus! {

/// The kind of transition a rule reacts to.
#[derive(Debug, Clone, Copy, PartialEq, Eq, Structural)]
pub enum Kind {
    Create,
    Delete,
    Invalid,
    Update,
}

/// The comparison a rule applies to a transition.
#[derive(Debug, Clone, Copy, PartialEq, Eq, Structural)]
pub enum Operator {
    Any,
    LowerThan,
    GreaterThan,
    Different,
    Equal,
}

/// A rule: on a matching transition, run `command`.
pub struct Trigger {
    pub kind: Kind,
    pub path: String,
    pub operator: Operator,
    pub value_to_compare: String,
    pub command: String,
}

/// The mathematical content of a rule.
pub struct TriggerView {
    pub kind: Kind,
    pub path: Seq<char>,
    pub operator: Operator,
    pub value_to_compare: Seq<char>,
    pub command: Seq<char>,
}

impl View for Trigger {
    type V = TriggerView;

    open spec fn view(&self) -> TriggerView {
        TriggerView {
            kind: self.kind,
            path: self.path@,
            operator: self.operator,
            value_to_compare: self.value_to_compare@,
            command: self.command@,
        }
    }
}

/// The kind a rule file writes as `C`, `D` or `U`.
pub open spec fn kind_of(s: Seq<char>) -> Kind {
    if s == seq!['C'] {
        Kind::Create
    } else if s == seq!['D'] {
        Kind::Delete
    } else if s == seq!['U'] {
        Kind::Update
    } else {
        Kind::Invalid
    }
}

/// The operator a rule file writes as `*`, `<`, `>`, `!=` or `==`; anything
/// else compares nothing.
pub open spec fn operator_of(s: Seq<char>) -> Operator {
    if s == seq!['<'] {
        Operator::LowerThan
    } else if s == seq!['>'] {
        Operator::GreaterThan
    } else if s == seq!['!', '='] {
        Operator::Different
    } else if s == seq!['=', '='] {
        Operator::Equal
    } else {
        Operator::Any
    }
}

/// Relies on `regex::Regex::new` followed by `Regex::is_match`: `None` when
/// `pattern` does not compile, else whether it matches somewhere in `text`.
pub uninterp spec fn regex_search(pattern: Seq<char>, text: Seq<char>) -> Option<bool>;

/// Relies on `shellwords::split`: the words of `s` under POSIX shell quoting,
/// or `None` when its quotes are unbalanced.
pub uninterp spec fn shell_words(s: Seq<char>) -> Option<Seq<Seq<char>>>;

/// Relies on `regex::Regex::new(pattern)` and then `is_match(text)`.
#[verifier::external_body]
pub(crate) fn regex_is_match(pattern: &str, text: &str) -> (r: Option<bool>)
    ensures
        r == regex_search(pattern@, text@),
{
    match regex::Regex::new(pattern) {
        Ok(re) => Some(re.is_match(text)),
        Err(_) => None,
    }
}

/// Relies on `shellwords::split` to cut a command into words.
#[verifier::external_body]
fn shell_split(s: &str) -> (r: Option<Vec<String>>)
    ensures
        match r {
            Some(v) => shell_words(s@) == Some(v@.map_values(|w: String| w@)),
            None => shell_words(s@) is None,
        },
{
    shellwords::split(s).ok()
}

/// `s` consists of the one character `c`.
fn is_single(s: &str, c: char) -> (r: bool)
    ensures
        r == (s@ == seq![c]),
{
    if s.unicode_len() == 1 {
        let d = s.get_char(0);
        proof {
            if d == c {
                assert(s@ =~= seq![c]);
            }
        }
        d == c
    } else {
        false
    }
}

/// `s` consists of the two characters `c`, `d`.
fn is_pair(s: &str, c: char, d: char) -> (r: bool)
    ensures
        r == (s@ == seq![c, d]),
{
    if s.unicode_len() == 2 {
        let x = s.get_char(0);
        let y = s.get_char(1);
        proof {
            if x == c && y == d {
                assert(s@ =~= seq![c, d]);
            }
        }
        x == c && y == d
    } else {
        false
    }
}

/// Whether a rule with this operator and comparison literal fires on a
/// transition from `old` to `new`.
pub open spec fn fires(operator: Operator, threshold: Seq<char>, old: Seq<char>, new: Seq<char>) -> bool {
    match operator {
        Operator::Any => true,
        Operator::Equal => new == threshold,
        Operator::Different => new != threshold,
        Operator::LowerThan => {
            &&& parse_i64_spec(old) is Some
            &&& parse_i64_spec(threshold) is Some
            &&& parse_i64_spec(new) is Some
            &&& parse_i64_spec(old)->0 >= parse_i64_spec(threshold)->0
            &&& parse_i64_spec(new)->0 < parse_i64_spec(threshold)->0
        },
        Operator::GreaterThan => {
            &&& parse_i64_spec(old) is Some
            &&& parse_i64_spec(threshold) is Some
            &&& parse_i64_spec(new) is Some
            &&& parse_i64_spec(old)->0 <= parse_i64_spec(threshold)->0
            &&& parse_i64_spec(new)->0 > parse_i64_spec(threshold)->0
        },
    }
}

/// Whether a rule's path pattern and a canonical path match each other:
/// the rule's pattern against the path, or else the path, read as a
/// pattern, against the rule's text. The test succeeds when either holds;
/// a pattern that does not compile matches nothing.
pub open spec fn paths_match(rule_path: Seq<char>, path: Seq<char>) -> bool {
    match regex_search(rule_path, path) {
        Some(true) => true,
        _ => regex_search(path, rule_path) == Some(true),
    }
}

/// The canonical path of a module field: `/<module>/<field>`.
pub open spec fn field_path(module: Seq<char>, name: Seq<char>) -> Seq<char> {
    seq!['/'] + module + seq!['/'] + name
}

/// Whether rule `t` fires on the transition `(kind, module, name, old, new)`.
pub open spec fn rule_fires(
    t: TriggerView,
    kind: Kind,
    module: Seq<char>,
    name: Seq<char>,
    old: Seq<char>,
    new: Seq<char>,
) -> bool {
    &&& t.kind == kind
    &&& paths_match(t.path, field_path(module, name))
    &&& fires(t.operator, t.value_to_compare, old, new)
}

/// The indices, in increasing order, of the first `n` rules that fire.
pub open spec fn firing_upto(
    ts: Seq<Trigger>,
    n: int,
    kind: Kind,
    module: Seq<char>,
    name: Seq<char>,
    old: Seq<char>,
    new: Seq<char>,
) -> Seq<usize>
    decreases n,
{
    if n <= 0 {
        Seq::empty()
    } else {
        let before = firing_upto(ts, n - 1, kind, module, name, old, new);
        if rule_fires(ts[n - 1]@, kind, module, name, old, new) {
            before.push((n - 1) as usize)
        } else {
            before
        }
    }
}

/// The line grammar of a rule file: `<KIND> <PATH> <OP> <VALUE> <COMMAND>`.
pub open spec fn is_kind_char(c: char) -> bool {
    c == 'C' || c == 'D' || c == 'U'
}

pub open spec fn is_alnum(c: char) -> bool {
    ('0' <= c && c <= '9') || ('a' <= c && c <= 'z') || ('A' <= c && c <= 'Z')
}

pub open spec fn all_alnum(s: Seq<char>) -> bool {
    forall|i: int| 0 <= i < s.len() ==> is_alnum(#[trigger] s[i])
}

/// The index of the first `c` in `s`, or its length when there is none.
pub open spec fn first_index(s: Seq<char>, c: char) -> int
    decreases s.len(),
{
    if s.len() == 0 {
        0
    } else if s[0] == c {
        0
    } else {
        1 + first_index(s.drop_first(), c)
    }
}

/// The length of the operator that starts `s`, followed by a space; 0 for none.
pub open spec fn operator_len(s: Seq<char>) -> int {
    if s.len() >= 3 && (s[0] == '!' || s[0] == '=') && s[1] == '=' && s[2] == ' ' {
        2
    } else if s.len() >= 2 && (s[0] == '*' || s[0] == '<' || s[0] == '>') && s[1] == ' ' {
        1
    } else {
        0
    }
}

/// The length of the comparison literal that starts `s`, followed by a
/// space: `*`, or a run of letters and digits; 0 for none.
pub open spec fn value_len(s: Seq<char>) -> int {
    if s.len() >= 2 && s[0] == '*' && s[1] == ' ' {
        1
    } else {
        let q = first_index(s, ' ');
        if 0 < q < s.len() && all_alnum(s.take(q)) {
            q
        } else {
            0
        }
    }
}

/// The rule that a line of a rule file describes, if it follows the grammar.
/// The command is the rest of the line, up to a line feed.
pub open spec fn line_rule(s: Seq<char>) -> Option<TriggerView> {
    if !(s.len() >= 2 && is_kind_char(s[0]) && s[1] == ' ') {
        None
    } else {
        let r1 = s.skip(2);
        let p = first_index(r1, ' ');
        if !(0 < p < r1.len()) {
            None
        } else {
            let r2 = r1.skip(p + 1);
            let olen = operator_len(r2);
            if olen == 0 {
                None
            } else {
                let r3 = r2.skip(olen + 1);
                let vlen = value_len(r3);
                if vlen == 0 {
                    None
                } else {
                    let rest = r3.skip(vlen + 1);
                    Some(TriggerView {
                        kind: kind_of(s.take(1)),
                        path: r1.take(p),
                        operator: operator_of(r2.take(olen)),
                        value_to_compare: r3.take(vlen),
                        command: rest.take(first_index(rest, '\n')),
                    })
                }
            }
        }
    }
}

/// The rules that the lines, in order, describe; lines off the grammar are skipped.
pub open spec fn lines_rules(lines: Seq<Seq<char>>) -> Seq<TriggerView>
    decreases lines.len(),
{
    if lines.len() == 0 {
        Seq::empty()
    } else {
        let before = lines_rules(lines.drop_last());
        match line_rule(lines.last()) {
            Some(t) => before.push(t),
            None => before,
        }
    }
}

/// `s` cut at every `c`: the pieces between separators, in order.
pub open spec fn split_on(s: Seq<char>, c: char) -> Seq<Seq<char>>
    decreases s.len(),
{
    if s.len() == 0 {
        seq![Seq::empty()]
    } else {
        let init = split_on(s.drop_last(), c);
        if s.last() == c {
            init.push(Seq::empty())
        } else {
            init.update(init.len() - 1, init.last().push(s.last()))
        }
    }
}

/// The pattern that names a rule file.
pub open spec fn rule_file_pattern() -> Seq<char> {
    "^.*\\.triggers$"@
}

impl Trigger {
    pub fn new(
        kind: &str,
        path: &str,
        operator: &str,
        value_to_compare: &str,
        command: &str,
    ) -> (r: Self)
        ensures
            r@ == (TriggerView {
                kind: kind_of(kind@),
                path: path@,
                operator: operator_of(operator@),
                value_to_compare: value_to_compare@,
                command: command@,
            }),
    {
        let k = if is_single(kind, 'C') {
            Kind::Create
        } else if is_single(kind, 'D') {
            Kind::Delete
        } else if is_single(kind, 'U') {
            Kind::Update
        } else {
            Kind::Invalid
        };
        let o = if is_single(operator, '<') {
            Operator::LowerThan
        } else if is_single(operator, '>') {
            Operator::GreaterThan
        } else if is_pair(operator, '!', '=') {
            Operator::Different
        } else if is_pair(operator, '=', '=') {
            Operator::Equal
        } else {
            Operator::Any
        };
        Trigger {
            kind: k,
            path: path.to_owned(),
            operator: o,
            value_to_compare: value_to_compare.to_owned(),
            command: command.to_owned(),
        }
    }

    /// The shell command the rule runs.
    pub fn command(&self) -> (r: &str)
        ensures
            r@ == self.command@,
    {
        self.command.as_str()
    }

    /// Whether the rule is of `kind` and its path pattern and `path` match
    /// each other in either direction.
    pub fn matches(&self, kind: Kind, path: &str) -> (r: bool)
        ensures
            r == (self.kind == kind && paths_match(self.path@, path@)),
    {
        if self.kind != kind {
            return false;
        }
        match regex_is_match(self.path.as_str(), path) {
            Some(true) => true,
            _ => match regex_is_match(path, self.path.as_str()) {
                Some(b) => b,
                None => false,
            },
        }
    }

    /// Whether the rule's operator accepts a transition from `old` to `new`.
    pub fn accepts(&self, old: &str, new: &str) -> (r: bool)
        ensures
            r == fires(self.operator, self.value_to_compare@, old@, new@),
    {
        match self.operator {
            Operator::Any => true,
            Operator::Equal => str_equal(new, self.value_to_compare.as_str()),
            Operator::Different => !str_equal(new, self.value_to_compare.as_str()),
            Operator::LowerThan => {
                let o = parse_i64(old);
                let t = parse_i64(self.value_to_compare.as_str());
                let n = parse_i64(new);
                match (o, t, n) {
                    (Some(o), Some(t), Some(n)) => o >= t && n < t,
                    _ => false,
                }
            },
            Operator::GreaterThan => {
                let o = parse_i64(old);
                let t = parse_i64(self.value_to_compare.as_str());
                let n = parse_i64(new);
                match (o, t, n) {
                    (Some(o), Some(t), Some(n)) => o <= t && n > t,
                    _ => false,
                }
            },
        }
    }

    /// The command cut at every `;`, each piece to be run in turn.
    pub fn command_pieces(&self) -> (r: Vec<String>)
        ensures
            r@.map_values(|p: String| p@) == split_on(self.command@, ';'),
    {
        let s = self.command.as_str();
        let n = s.unicode_len();
        let mut done: Vec<String> = Vec::new();
        let mut cur: Vec<char> = Vec::new();
        let mut i: usize = 0;
        while i < n
            invariant
                n == s@.len(),
                s@ == self.command@,
                i <= n,
                done@.map_values(|p: String| p@).push(cur@) == split_on(s@.take(i as int), ';'),
            decreases n - i,
        {
            let c = s.get_char(i);
            proof {
                assert(s@.take(i + 1).drop_last() =~= s@.take(i as int));
                assert(s@.take(i + 1).last() == c);
            }
            if c == ';' {
                let piece = string_from_chars(&cur);
                done.push(piece);
                cur = Vec::new();
                proof {
                    assert(done@.map_values(|p: String| p@).push(cur@) =~= split_on(
                        s@.take(i as int),
                        ';',
                    ).push(Seq::empty()));
                }
            } else {
                let ghost before = split_on(s@.take(i as int), ';');
                cur.push(c);
                proof {
                    assert(done@.map_values(|p: String| p@).push(cur@) =~= before.update(
                        before.len() - 1,
                        before.last().push(c),
                    ));
                }
            }
            i = i + 1;
        }
        let last = string_from_chars(&cur);
        done.push(last);
        proof {
            assert(s@.take(n as int) =~= s@);
            assert(done@.map_values(|p: String| p@) =~= split_on(s@.take(i as int), ';'));
        }
        done
    }
}

/// The words of one command piece: `Ok` exactly when its quotes balance and
/// it holds at least one word, the program to run.
pub fn command_words(piece: &str) -> (r: Result<Vec<String>, CerebroError>)
    ensures
        match r {
            Ok(v) => shell_words(piece@) == Some(v@.map_values(|w: String| w@)) && v@.len() > 0,
            Err(_) => shell_words(piece@) is None || shell_words(piece@)->0.len() == 0,
        },
{
    match shell_split(piece) {
        Some(v) => {
            if v.len() == 0 {
                Err(CerebroError::new("Empty command"))
            } else {
                Ok(v)
            }
        },
        None => Err(CerebroError::new("Cannot split command")),
    }
}

/// The canonical path `/<module>/<name>`.
pub fn make_field_path(module: &str, name: &str) -> (r: String)
    ensures
        r@ == field_path(module@, name@),
{
    let slash = "/";
    proof {
        reveal_strlit("/");
    }
    let mut p = String::from_str(slash);
    p.append(module);
    p.append(slash);
    p.append(name);
    proof {
        assert(p@ =~= field_path(module@, name@));
    }
    p
}

/// The indices, in order, of the rules that fire on the transition of
/// field `name` of `module` from `old` to `new`.
pub fn find_all(
    triggers: &Vec<Trigger>,
    kind: Kind,
    module: &str,
    name: &str,
    old: &str,
    new: &str,
) -> (r: Vec<usize>)
    ensures
        r@ == firing_upto(triggers@, triggers@.len() as int, kind, module@, name@, old@, new@),
{
    let path = make_field_path(module, name);
    let mut r: Vec<usize> = Vec::new();
    let mut i: usize = 0;
    while i < triggers.len()
        invariant
            i <= triggers@.len(),
            path@ == field_path(module@, name@),
            r@ == firing_upto(triggers@, i as int, kind, module@, name@, old@, new@),
        decreases triggers@.len() - i,
    {
        let t = &triggers[i];
        if t.matches(kind, path.as_str()) && t.accepts(old, new) {
            r.push(i);
        }
        i = i + 1;
    }
    r
}

/// Whether a file of the rule directory holds rules: its name ends in `.triggers`.
pub fn is_rule_file(name: &str) -> (r: bool)
    ensures
        r == (regex_search(rule_file_pattern(), name@) == Some(true)),
{
    let pattern = "^.*\\.triggers$";
    match regex_is_match(pattern, name) {
        Some(b) => b,
        None => false,
    }
}

proof fn lemma_first_index(t: Seq<char>, c: char, m: int)
    requires
        0 <= m <= t.len(),
        forall|j: int| 0 <= j < m ==> t[j] != c,
        m == t.len() || t[m] == c,
    ensures
        first_index(t, c) == m,
    decreases t.len(),
{
    if t.len() > 0 && m > 0 {
        let u = t.drop_first();
        assert forall|j: int| 0 <= j < m - 1 implies u[j] != c by {
            assert(u[j] == t[j + 1]);
        }
        if m < t.len() {
            assert(u[m - 1] == t[m]);
        }
        lemma_first_index(u, c, m - 1);
    }
}

/// The index of the first `c` in `s` at or after `start`, or the length of `s`.
fn find_from(s: &str, start: usize, c: char) -> (r: usize)
    requires
        start <= s@.len(),
    ensures
        start <= r <= s@.len(),
        r - start == first_index(s@.skip(start as int), c),
{
    let n = s.unicode_len();
    let mut i: usize = start;
    while i < n
        invariant
            n == s@.len(),
            start <= i <= n,
            forall|j: int| start <= j < i ==> s@[j] != c,
        decreases n - i,
    {
        if s.get_char(i) == c {
            proof {
                let t = s@.skip(start as int);
                assert forall|j: int| 0 <= j < i - start implies t[j] != c by {
                    assert(t[j] == s@[start + j]);
                }
                assert(t[i - start] == s@[i as int]);
                lemma_first_index(t, c, i - start);
            }
            return i;
        }
        i = i + 1;
    }
    proof {
        let t = s@.skip(start as int);
        assert forall|j: int| 0 <= j < i - start implies t[j] != c by {
            assert(t[j] == s@[start + j]);
        }
        lemma_first_index(t, c, i - start);
    }
    i
}

/// Whether the characters of `s` from `from` to `to` are all letters or digits.
fn alnum_between(s: &str, from: usize, to: usize) -> (r: bool)
    requires
        from <= to <= s@.len(),
    ensures
        r == all_alnum(s@.subrange(from as int, to as int)),
{
    let mut i: usize = from;
    while i < to
        invariant
            from <= i <= to,
            to <= s@.len(),
            forall|j: int| from <= j < i ==> is_alnum(s@[j]),
        decreases to - i,
    {
        let c = s.get_char(i);
        if !(('0' <= c && c <= '9') || ('a' <= c && c <= 'z') || ('A' <= c && c <= 'Z')) {
            proof {
                assert(s@.subrange(from as int, to as int)[i - from] == c);
            }
            return false;
        }
        i = i + 1;
    }
    proof {
        let t = s@.subrange(from as int, to as int);
        assert forall|j: int| 0 <= j < t.len() implies is_alnum(#[trigger] t[j]) by {
            assert(t[j] == s@[from + j]);
        }
    }
    true
}

/// The rule a line of a rule file describes, or `None` when the line is off
/// the grammar.
#[verifier::rlimit(40)]
pub fn parse_line(line: &str) -> (r: Option<Trigger>)
    ensures
        match r {
            Some(t) => line_rule(line@) == Some(t@),
            None => line_rule(line@) is None,
        },
{
    let ghost s = line@;
    let n = line.unicode_len();
    if n < 2 {
        return None;
    }
    let k = line.get_char(0);
    if !((k == 'C' || k == 'D' || k == 'U') && line.get_char(1) == ' ') {
        return None;
    }
    let ghost r1 = s.skip(2);
    let p_end = find_from(line, 2, ' ');
    if !(p_end > 2 && p_end < n) {
        return None;
    }
    let b = p_end + 1;
    let ghost r2 = r1.skip(p_end - 2 + 1);
    proof {
        assert(r2 =~= s.skip(b as int));
    }
    let olen: usize = if n - b > 2 && (line.get_char(b) == '!' || line.get_char(b) == '=')
        && line.get_char(b + 1) == '=' && line.get_char(b + 2) == ' ' {
        2
    } else if n - b > 1 && (line.get_char(b) == '*' || line.get_char(b) == '<'
        || line.get_char(b) == '>') && line.get_char(b + 1) == ' ' {
        1
    } else {
        0
    };
    proof {
        assert(olen == operator_len(r2));
    }
    if olen == 0 {
        return None;
    }
    let c = b + olen + 1;
    let ghost r3 = r2.skip(olen + 1);
    proof {
        assert(r3 =~= s.skip(c as int));
    }
    let vlen: usize = if n - c > 1 && line.get_char(c) == '*' && line.get_char(c + 1) == ' ' {
        1
    } else {
        let q_end = find_from(line, c, ' ');
        if q_end > c && q_end < n && alnum_between(line, c, q_end) {
            proof {
                assert(r3.take(q_end - c) =~= s.subrange(c as int, q_end as int));
            }
            q_end - c
        } else {
            proof {
                if q_end > c && q_end < n {
                    assert(r3.take(q_end - c) =~= s.subrange(c as int, q_end as int));
                }
            }
            0
        }
    };
    proof {
        assert(vlen == value_len(r3));
    }
    if vlen == 0 {
        return None;
    }
    let d = c + vlen + 1;
    let ghost rest = r3.skip(vlen + 1);
    proof {
        assert(rest =~= s.skip(d as int));
    }
    let e = find_from(line, d, '\n');
    let kind = line.substring_char(0, 1);
    let path = line.substring_char(2, p_end);
    let operator = line.substring_char(b, b + olen);
    let value = line.substring_char(c, c + vlen);
    let command = line.substring_char(d, e);
    proof {
        assert(kind@ =~= s.take(1));
        assert(path@ =~= r1.take(p_end - 2));
        assert(operator@ =~= r2.take(olen as int));
        assert(value@ =~= r3.take(vlen as int));
        assert(command@ =~= rest.take(first_index(rest, '\n')));
    }
    Some(Trigger::new(kind, path, operator, value, command))
}

/// The rules of a rule file, given as its lines, in order; lines off the
/// grammar are skipped.
pub fn parse_lines(lines: &Vec<String>) -> (r: Vec<Trigger>)
    ensures
        r@.map_values(|t: Trigger| t@) == lines_rules(lines@.map_values(|l: String| l@)),
{
    let mut r: Vec<Trigger> = Vec::new();
    let mut i: usize = 0;
    while i < lines.len()
        invariant
            i <= lines@.len(),
            r@.map_values(|t: Trigger| t@) == lines_rules(
                lines@.take(i as int).map_values(|l: String| l@),
            ),
        decreases lines@.len() - i,
    {
        let ghost before = r@;
        proof {
            assert(lines@.take(i + 1).map_values(|l: String| l@).drop_last() =~= lines@.take(
                i as int,
            ).map_values(|l: String| l@));
        }
        match parse_line(lines[i].as_str()) {
            Some(t) => {
                r.push(t);
                proof {
                    assert(r@.map_values(|t: Trigger| t@) =~= before.map_values(|t: Trigger| t@).push(
                        t@,
                    ));
                }
            },
            None => {},
        }
        i = i + 1;
    }
    proof {
        assert(lines@.take(i as int) =~= lines@);
    }
    r
}

/// A threshold rule fires on a transition exactly when the transition
/// crosses the threshold, and it does not fire again until the value has
/// come back to the threshold's side it started from: between two firing
/// transitions of a value history, some value stands on that side again.
pub proof fn lemma_threshold_edge(operator: Operator, threshold: Seq<char>, values: Seq<Seq<char>>, i: int, j: int)
    requires
        operator == Operator::LowerThan || operator == Operator::GreaterThan,
        0 <= i < j,
        j + 1 < values.len(),
        fires(operator, threshold, values[i], values[i + 1]),
        fires(operator, threshold, values[j], values[j + 1]),
    ensures
        operator == Operator::LowerThan ==> parse_i64_spec(values[i + 1])->0 < parse_i64_spec(threshold)->0
            && exists|k: int| i < k <= j && parse_i64_spec(#[trigger] values[k]) is Some
                && parse_i64_spec(values[k])->0 >= parse_i64_spec(threshold)->0,
        operator == Operator::GreaterThan ==> parse_i64_spec(values[i + 1])->0 > parse_i64_spec(threshold)->0
            && exists|k: int| i < k <= j && parse_i64_spec(#[trigger] values[k]) is Some
                && parse_i64_spec(values[k])->0 <= parse_i64_spec(threshold)->0,
{
    assert(parse_i64_spec(values[j]) is Some);
}

/// A threshold rule fires on a transition if and only if the old and new
/// values read as integers on opposite sides of the threshold, the old one
/// at or before it and the new one strictly past it.
pub proof fn lemma_threshold_crossing(operator: Operator, threshold: Seq<char>, old: Seq<char>, new: Seq<char>)
    requires
        parse_i64_spec(threshold) is Some,
        parse_i64_spec(old) is Some,
        parse_i64_spec(new) is Some,
    ensures
        operator == Operator::LowerThan ==> (fires(operator, threshold, old, new) <==> (
            parse_i64_spec(old)->0 >= parse_i64_spec(threshold)->0
            && parse_i64_spec(new)->0 < parse_i64_spec(threshold)->0)),
        operator == Operator::GreaterThan ==> (fires(operator, threshold, old, new) <==> (
            parse_i64_spec(old)->0 <= parse_i64_spec(threshold)->0
            && parse_i64_spec(new)->0 > parse_i64_spec(threshold)->0)),
{
}

} // verus!
