//! Parser for `.env` files: `KEY=value` lines, with quoting, escapes and
//! `$VAR` / `${VAR}` expansion.

use crate::text::{
    append_all, chars_of, copy_range, find_exec, find_from, split_lines, split_lines_exec, string_of, trim, trim_exec, views,
};
use vstd::prelude::*;

verus! {

/// What `char::is_alphanumeric` returns for a character.
pub uninterp spec fn char_is_alphanumeric(c: char) -> bool;

/// What `char::is_alphabetic` returns for a character.
pub uninterp spec fn char_is_alphabetic(c: char) -> bool;

/// Relies on `char::is_alphanumeric`: the Unicode `Alphabetic` or `Numeric`
/// property, which the ASCII letters and digits have.
#[verifier::external_body]
pub(crate) fn is_alphanumeric(c: char) -> (r: bool)
    ensures
        r == char_is_alphanumeric(c),
        ('a' <= c && c <= 'z') || ('A' <= c && c <= 'Z') || ('0' <= c && c <= '9') ==> r,
{
    c.is_alphanumeric()
}

/// Relies on `char::is_alphabetic`: the Unicode `Alphabetic` property,
/// which the ASCII letters have.
#[verifier::external_body]
fn is_alphabetic(c: char) -> (r: bool)
    ensures
        r == char_is_alphabetic(c),
        ('a' <= c && c <= 'z') || ('A' <= c && c <= 'Z') ==> r,
{
    c.is_alphabetic()
}

pub open spec fn digit_char(d: int) -> char {
    if d == 0 {
        '0'
    } else if d == 1 {
        '1'
    } else if d == 2 {
        '2'
    } else if d == 3 {
        '3'
    } else if d == 4 {
        '4'
    } else if d == 5 {
        '5'
    } else if d == 6 {
        '6'
    } else if d == 7 {
        '7'
    } else if d == 8 {
        '8'
    } else {
        '9'
    }
}

/// The decimal digits of `n`.
pub open spec fn decimal(n: nat) -> Seq<char>
    decreases n,
{
    if n < 10 {
        seq![digit_char(n as int)]
    } else {
        decimal(n / 10).push(digit_char((n % 10) as int))
    }
}

fn digit_char_exec(d: usize) -> (r: char)
    requires
        d < 10,
    ensures
        r == digit_char(d as int),
{
    match d {
        0 => '0',
        1 => '1',
        2 => '2',
        3 => '3',
        4 => '4',
        5 => '5',
        6 => '6',
        7 => '7',
        8 => '8',
        _ => '9',
    }
}

pub fn decimal_exec(n: usize) -> (r: Vec<char>)
    ensures
        r@ == decimal(n as nat),
    decreases n,
{
    if n < 10 {
        let mut v: Vec<char> = Vec::new();
        v.push(digit_char_exec(n));
        assert(v@ =~= seq![digit_char(n as int)]);
        v
    } else {
        let mut v = decimal_exec(n / 10);
        v.push(digit_char_exec(n % 10));
        v
    }
}

/// Name–value pairs as character sequences.
pub open spec fn pair_views(v: Seq<(String, String)>) -> Seq<(Seq<char>, Seq<char>)> {
    v.map_values(|p: (String, String)| (p.0@, p.1@))
}

/// Index of the first pair at or after `i` with the given name, or the length.
pub open spec fn key_index_from(ps: Seq<(Seq<char>, Seq<char>)>, key: Seq<char>, i: int) -> int
    decreases ps.len() - i,
{
    if i < 0 || i >= ps.len() {
        ps.len() as int
    } else if ps[i].0 == key {
        i
    } else {
        key_index_from(ps, key, i + 1)
    }
}

pub open spec fn lookup(ps: Seq<(Seq<char>, Seq<char>)>, key: Seq<char>) -> Option<Seq<char>> {
    let i = key_index_from(ps, key, 0);
    if 0 <= i < ps.len() {
        Some(ps[i].1)
    } else {
        None
    }
}

/// Names are unique.
pub open spec fn unique_keys(ps: Seq<(Seq<char>, Seq<char>)>) -> bool {
    forall|i: int, j: int| 0 <= i < j < ps.len() ==> ps[i].0 != ps[j].0
}

/// `ps` with `key` set to `value`: in place when present, else at the end.
pub open spec fn insert_pair(ps: Seq<(Seq<char>, Seq<char>)>, key: Seq<char>, value: Seq<char>) -> Seq<
    (Seq<char>, Seq<char>),
> {
    let i = key_index_from(ps, key, 0);
    if 0 <= i < ps.len() {
        ps.update(i, (key, value))
    } else {
        ps.push((key, value))
    }
}

/// The value of a variable: a loaded one first, then the environment, else
/// empty.
pub open spec fn variable_value(
    vars: Seq<(Seq<char>, Seq<char>)>,
    env: Seq<(Seq<char>, Seq<char>)>,
    name: Seq<char>,
) -> Seq<char> {
    match lookup(vars, name) {
        Some(v) => v,
        None => match lookup(env, name) {
            Some(v) => v,
            None => seq![],
        },
    }
}

pub proof fn lemma_key_index(ps: Seq<(Seq<char>, Seq<char>)>, key: Seq<char>, i: int)
    requires
        0 <= i <= ps.len(),
    ensures
        i <= key_index_from(ps, key, i) <= ps.len(),
        key_index_from(ps, key, i) < ps.len() ==> ps[key_index_from(ps, key, i)].0 == key,
        forall|k: int| i <= k < key_index_from(ps, key, i) ==> #[trigger] ps[k].0 != key,
    decreases ps.len() - i,
{
    if i < ps.len() && ps[i].0 != key {
        lemma_key_index(ps, key, i + 1);
    }
}

pub proof fn lemma_insert_unique(ps: Seq<(Seq<char>, Seq<char>)>, key: Seq<char>, value: Seq<char>)
    requires
        unique_keys(ps),
    ensures
        unique_keys(insert_pair(ps, key, value)),
        lookup(insert_pair(ps, key, value), key) == Some(value),
{
    lemma_key_index(ps, key, 0);
    let r = insert_pair(ps, key, value);
    let i = key_index_from(ps, key, 0);
    if i < ps.len() {
        assert(r[i].0 == ps[i].0);
        assert forall|a: int, b: int| 0 <= a < b < r.len() implies r[a].0 != r[b].0 by {
            assert(r[a].0 == ps[a].0 && r[b].0 == ps[b].0);
        }
        lemma_key_index(r, key, 0);
        assert forall|k: int| 0 <= k < i implies r[k].0 != key by {
            assert(r[k].0 == ps[k].0);
        }
        assert(r[i] == (key, value));
        let j = key_index_from(r, key, 0);
        if j < i {
            assert(r[j].0 == ps[j].0);
        }
        if j > i {
            assert(r[i].0 != key);
        }
        assert(j == i);
    } else {
        lemma_key_index(r, key, 0);
        assert forall|k: int| 0 <= k < ps.len() implies r[k].0 != key by {
            assert(r[k] == ps[k]);
        }
        assert(r[ps.len() as int] == (key, value));
        let j = key_index_from(r, key, 0);
        if j < ps.len() {
            assert(r[j] == ps[j]);
        }
        if j > ps.len() {
            assert(r[ps.len() as int].0 != key);
        }
        assert(j == ps.len());
    }
}

/// The end of a `$NAME` reference whose name starts at `i`.
pub open spec fn name_end(s: Seq<char>, i: int) -> int
    decreases s.len() - i,
{
    if i < 0 || i >= s.len() {
        s.len() as int
    } else if char_is_alphanumeric(s[i]) || s[i] == '_' {
        name_end(s, i + 1)
    } else {
        i
    }
}

/// `s[k..]` with `${NAME}` and `$NAME` replaced by the variables' values; a
/// `${` without a closing brace is kept as it is, and any other `$` too.
pub open spec fn expand_from(
    s: Seq<char>,
    k: int,
    vars: Seq<(Seq<char>, Seq<char>)>,
    env: Seq<(Seq<char>, Seq<char>)>,
) -> Seq<char>
    decreases s.len() - k,
{
    if k < 0 || k >= s.len() {
        seq![]
    } else if s[k] == '$' && k + 1 < s.len() && s[k + 1] == '{' {
        let c = find_from(s, seq!['}'], k + 2);
        if c < s.len() {
            if c < k + 2 {
                seq![]
            } else {
                variable_value(vars, env, s.subrange(k + 2, c)) + expand_from(s, c + 1, vars, env)
            }
        } else {
            s.subrange(k, s.len() as int)
        }
    } else if s[k] == '$' && k + 1 < s.len() && (char_is_alphabetic(s[k + 1]) || s[k + 1] == '_') {
        let e = name_end(s, k + 1);
        if e <= k || e > s.len() {
            seq![]
        } else {
            variable_value(vars, env, s.subrange(k + 1, e)) + expand_from(s, e, vars, env)
        }
    } else {
        seq![s[k]] + expand_from(s, k + 1, vars, env)
    }
}

pub open spec fn expand(
    s: Seq<char>,
    vars: Seq<(Seq<char>, Seq<char>)>,
    env: Seq<(Seq<char>, Seq<char>)>,
) -> Seq<char> {
    expand_from(s, 0, vars, env)
}

pub open spec fn escaped(c: char) -> Option<char> {
    if c == 'n' {
        Some('\n')
    } else if c == 'r' {
        Some('\r')
    } else if c == 't' {
        Some('\t')
    } else if c == '\\' {
        Some('\\')
    } else if c == '"' {
        Some('"')
    } else {
        None
    }
}

/// `s[k..]` with the escapes `\n`, `\r`, `\t`, `\\` and `\"` decoded; any
/// other backslash is kept.
pub open spec fn unescape_from(s: Seq<char>, k: int) -> Seq<char>
    decreases s.len() - k,
{
    if k < 0 || k >= s.len() {
        seq![]
    } else if s[k] == '\\' && k + 1 < s.len() && escaped(s[k + 1]) is Some {
        seq![escaped(s[k + 1])->0] + unescape_from(s, k + 2)
    } else {
        seq![s[k]] + unescape_from(s, k + 1)
    }
}

pub open spec fn missing_eq_msg(n: nat) -> Seq<char> {
    "Invalid format at line "@ + decimal(n) + ": missing '='"@
}

pub open spec fn empty_key_msg(n: nat) -> Seq<char> {
    "Empty key at line "@ + decimal(n)
}

pub open spec fn invalid_key_msg(n: nat, key: Seq<char>) -> Seq<char> {
    "Invalid key format at line "@ + decimal(n) + ": '"@ + key + "'"@
}

pub open spec fn unterminated_msg(n: nat) -> Seq<char> {
    "Unterminated quote at line "@ + decimal(n)
}

pub open spec fn valid_key(key: Seq<char>) -> bool {
    forall|i: int| 0 <= i < key.len() ==> char_is_alphanumeric(#[trigger] key[i]) || key[i] == '_'
}

/// The value of a definition: empty stays empty; between double quotes,
/// escapes are decoded and variables expanded; between single quotes it is
/// taken as written; unquoted, variables are expanded.
pub open spec fn parse_value(
    value: Seq<char>,
    n: nat,
    vars: Seq<(Seq<char>, Seq<char>)>,
    env: Seq<(Seq<char>, Seq<char>)>,
) -> Result<Seq<char>, Seq<char>> {
    if value.len() == 0 {
        Ok(seq![])
    } else if (value[0] == '"' && value.last() == '"') || (value[0] == '\'' && value.last()
        == '\'') {
        if value.len() < 2 {
            Err(unterminated_msg(n))
        } else if value[0] == '"' {
            Ok(expand(unescape_from(value.subrange(1, value.len() - 1), 0), vars, env))
        } else {
            Ok(value.subrange(1, value.len() - 1))
        }
    } else {
        Ok(expand(value, vars, env))
    }
}

/// The definition on the trimmed line `t`, numbered `n`.
pub open spec fn parse_entry(
    t: Seq<char>,
    n: nat,
    vars: Seq<(Seq<char>, Seq<char>)>,
    env: Seq<(Seq<char>, Seq<char>)>,
) -> Result<(Seq<char>, Seq<char>), Seq<char>> {
    let eq = find_from(t, seq!['='], 0);
    let key = trim(t.subrange(0, eq));
    if eq >= t.len() {
        Err(missing_eq_msg(n))
    } else if key.len() == 0 {
        Err(empty_key_msg(n))
    } else if !valid_key(key) {
        Err(invalid_key_msg(n, key))
    } else {
        match parse_value(trim(t.subrange(eq + 1, t.len() as int)), n, vars, env) {
            Ok(v) => Ok((key, v)),
            Err(e) => Err(e),
        }
    }
}

/// Parsing lines `ls[i..]` into `vars`: blank lines and `#` comments are
/// skipped; the first bad line stops it with its error, keeping what came
/// before.
pub open spec fn parse_lines_from(
    ls: Seq<Seq<char>>,
    i: int,
    vars: Seq<(Seq<char>, Seq<char>)>,
    env: Seq<(Seq<char>, Seq<char>)>,
) -> (Seq<(Seq<char>, Seq<char>)>, Option<Seq<char>>)
    decreases ls.len() - i,
{
    if i < 0 || i >= ls.len() {
        (vars, None)
    } else {
        let t = trim(ls[i]);
        if t.len() == 0 || t[0] == '#' {
            parse_lines_from(ls, i + 1, vars, env)
        } else {
            match parse_entry(t, (i + 1) as nat, vars, env) {
                Ok(kv) => parse_lines_from(ls, i + 1, insert_pair(vars, kv.0, kv.1), env),
                Err(e) => (vars, Some(e)),
            }
        }
    }
}

/// Loaded variables, with a snapshot of the process environment that
/// expansion falls back on.
pub struct EnvParser {
    vars: Vec<(String, String)>,
    environment: Vec<(String, String)>,
}

impl EnvParser {
    /// The loaded variables, in the order they were first defined.
    pub closed spec fn vars(&self) -> Seq<(Seq<char>, Seq<char>)> {
        pair_views(self.vars@)
    }

    /// The environment that expansion falls back on.
    pub closed spec fn environment(&self) -> Seq<(Seq<char>, Seq<char>)> {
        pair_views(self.environment@)
    }

    pub open spec fn wf(&self) -> bool {
        unique_keys(self.vars())
    }

    /// A parser with no variables and an empty fallback environment.
    pub fn new() -> (r: EnvParser)
        ensures
            r.wf(),
            r.vars() == Seq::<(Seq<char>, Seq<char>)>::empty(),
            r.environment() == Seq::<(Seq<char>, Seq<char>)>::empty(),
    {
        let r = EnvParser { vars: Vec::new(), environment: Vec::new() };
        assert(r.vars() =~= Seq::<(Seq<char>, Seq<char>)>::empty());
        assert(r.environment() =~= Seq::<(Seq<char>, Seq<char>)>::empty());
        r
    }

    /// A parser with no variables that falls back on the given environment.
    pub fn with_environment(environment: Vec<(String, String)>) -> (r: EnvParser)
        ensures
            r.wf(),
            r.vars() == Seq::<(Seq<char>, Seq<char>)>::empty(),
            r.environment() == pair_views(environment@),
    {
        let r = EnvParser { vars: Vec::new(), environment };
        assert(r.vars() =~= Seq::<(Seq<char>, Seq<char>)>::empty());
        r
    }

    /// All loaded variables.
    pub fn get_vars(&self) -> (r: &Vec<(String, String)>)
        ensures
            pair_views(r@) == self.vars(),
    {
        &self.vars
    }

    /// Forgets all loaded variables.
    pub fn clear(&mut self)
        ensures
            final(self).wf(),
            final(self).vars() == Seq::<(Seq<char>, Seq<char>)>::empty(),
            final(self).environment() == old(self).environment(),
    {
        self.vars = Vec::new();
        assert(self.vars() =~= Seq::<(Seq<char>, Seq<char>)>::empty());
    }
}

fn find_pair(ps: &Vec<(String, String)>, key: &String) -> (r: usize)
    ensures
        r as int == key_index_from(pair_views(ps@), key@, 0),
{
    let ghost v = pair_views(ps@);
    let mut i: usize = 0;
    while i < ps.len()
        invariant
            i <= ps.len(),
            v == pair_views(ps@),
            key_index_from(v, key@, i as int) == key_index_from(v, key@, 0),
        decreases ps.len() - i,
    {
        if ps[i].0 == *key {
            return i;
        }
        i += 1;
    }
    i
}

fn lookup_exec(ps: &Vec<(String, String)>, key: &String) -> (r: Option<Vec<char>>)
    ensures
        match (r, lookup(pair_views(ps@), key@)) {
            (Some(a), Some(b)) => a@ == b,
            (None, None) => true,
            _ => false,
        },
{
    let i = find_pair(ps, key);
    if i < ps.len() {
        Some(chars_of(ps[i].1.as_str()))
    } else {
        None
    }
}

impl EnvParser {
    /// The value of a variable: a loaded one, else the environment's, else
    /// empty.
    pub fn get_variable(&self, name: &str) -> (r: String)
        ensures
            r@ == variable_value(self.vars(), self.environment(), name@),
    {
        string_of(&self.variable_chars(&chars_of(name)))
    }

    fn variable_chars(&self, name: &Vec<char>) -> (r: Vec<char>)
        ensures
            r@ == variable_value(self.vars(), self.environment(), name@),
    {
        let key = string_of(name);
        match lookup_exec(&self.vars, &key) {
            Some(v) => v,
            None => match lookup_exec(&self.environment, &key) {
                Some(v) => v,
                None => Vec::new(),
            },
        }
    }

    fn insert(&mut self, key: Vec<char>, value: Vec<char>)
        requires
            old(self).wf(),
        ensures
            final(self).wf(),
            final(self).vars() == insert_pair(old(self).vars(), key@, value@),
            final(self).environment() == old(self).environment(),
    {
        let k = string_of(&key);
        let v = string_of(&value);
        let i = find_pair(&self.vars, &k);
        proof {
            lemma_insert_unique(self.vars(), key@, value@);
        }
        let ghost before = self.vars();
        if i < self.vars.len() {
            self.vars.set(i, (k, v));
            assert(self.vars() =~= before.update(i as int, (key@, value@)));
        } else {
            self.vars.push((k, v));
            assert(self.vars() =~= before.push((key@, value@)));
        }
    }

    fn name_end_exec(s: &Vec<char>, i: usize) -> (r: usize)
        requires
            i <= s.len(),
        ensures
            r as int == name_end(s@, i as int),
            i <= r <= s.len(),
    {
        let mut k = i;
        while k < s.len() && (is_alphanumeric(s[k]) || s[k] == '_')
            invariant
                i <= k <= s.len(),
                name_end(s@, k as int) == name_end(s@, i as int),
            decreases s.len() - k,
        {
            k += 1;
        }
        k
    }

    /// Expands `${NAME}` and `$NAME` references.
    fn expand_variables(&self, s: &Vec<char>) -> (r: Vec<char>)
        ensures
            r@ == expand(s@, self.vars(), self.environment()),
    {
        let ghost vars = self.vars();
        let ghost env = self.environment();
        let mut out: Vec<char> = Vec::new();
        let mut k: usize = 0;
        let mut close: Vec<char> = Vec::new();
        close.push('}');
        assert(close@ =~= seq!['}']);
        while k < s.len()
            invariant
                k <= s.len(),
                vars == self.vars(),
                env == self.environment(),
                close@ == seq!['}'],
                out@ + expand_from(s@, k as int, vars, env) == expand(s@, vars, env),
            decreases s.len() - k,
        {
            let ghost out0 = out@;
            if s[k] == '$' && k + 1 < s.len() && s[k + 1] == '{' {
                let c = find_exec(s, &close, k + 2);
                if c < s.len() {
                    let value = self.variable_chars(&copy_range(s, k + 2, c));
                    append_all(&mut out, &value);
                    assert(out0 + (value@ + expand_from(s@, c + 1, vars, env)) =~= out@
                        + expand_from(s@, c + 1, vars, env));
                    k = c + 1;
                } else {
                    append_all(&mut out, &copy_range(s, k, s.len()));
                    assert(out@ + expand_from(s@, s.len() as int, vars, env) =~= out@);
                    k = s.len();
                }
            } else if s[k] == '$' && k + 1 < s.len() && (is_alphabetic(s[k + 1]) || s[k + 1]
                == '_') {
                let e = Self::name_end_exec(s, k + 1);
                let value = self.variable_chars(&copy_range(s, k + 1, e));
                append_all(&mut out, &value);
                assert(out0 + (value@ + expand_from(s@, e as int, vars, env)) =~= out@
                    + expand_from(s@, e as int, vars, env));
                k = e;
            } else {
                out.push(s[k]);
                assert(out0 + (seq![s@[k as int]] + expand_from(s@, k + 1, vars, env)) =~= out@
                    + expand_from(s@, k + 1, vars, env));
                k += 1;
            }
        }
        assert(out@ + expand_from(s@, k as int, vars, env) =~= out@);
        out
    }

    /// Decodes escapes, then expands variables.
    fn unescape_string(&self, s: &Vec<char>) -> (r: Vec<char>)
        ensures
            r@ == expand(unescape_from(s@, 0), self.vars(), self.environment()),
    {
        let mut out: Vec<char> = Vec::new();
        let mut k: usize = 0;
        while k < s.len()
            invariant
                k <= s.len(),
                out@ + unescape_from(s@, k as int) == unescape_from(s@, 0),
            decreases s.len() - k,
        {
            let ghost out0 = out@;
            let c = s[k];
            let mapped = if c == '\\' && k + 1 < s.len() {
                let d = s[k + 1];
                if d == 'n' {
                    Some('\n')
                } else if d == 'r' {
                    Some('\r')
                } else if d == 't' {
                    Some('\t')
                } else if d == '\\' {
                    Some('\\')
                } else if d == '"' {
                    Some('"')
                } else {
                    None
                }
            } else {
                None
            };
            match mapped {
                Some(m) => {
                    out.push(m);
                    assert(out0 + (seq![m] + unescape_from(s@, k + 2)) =~= out@ + unescape_from(
                        s@,
                        k + 2,
                    ));
                    k += 2;
                },
                None => {
                    out.push(c);
                    assert(out0 + (seq![c] + unescape_from(s@, k + 1)) =~= out@ + unescape_from(
                        s@,
                        k + 1,
                    ));
                    k += 1;
                },
            }
        }
        assert(out@ + unescape_from(s@, k as int) =~= out@);
        self.expand_variables(&out)
    }

    fn parse_value(&self, value: &Vec<char>, n: usize) -> (r: Result<Vec<char>, Vec<char>>)
        ensures
            match (r, parse_value(value@, n as nat, self.vars(), self.environment())) {
                (Ok(a), Ok(b)) => a@ == b,
                (Err(a), Err(b)) => a@ == b,
                _ => false,
            },
    {
        if value.len() == 0 {
            return Ok(Vec::new());
        }
        let first = value[0];
        let last = value[value.len() - 1];
        if (first == '"' && last == '"') || (first == '\'' && last == '\'') {
            if value.len() < 2 {
                let mut m = chars_of("Unterminated quote at line ");
                append_all(&mut m, &decimal_exec(n));
                return Err(m);
            }
            let inner = copy_range(value, 1, value.len() - 1);
            if first == '"' {
                return Ok(self.unescape_string(&inner));
            } else {
                return Ok(inner);
            }
        }
        Ok(self.expand_variables(value))
    }

    fn valid_key_exec(key: &Vec<char>) -> (r: bool)
        ensures
            r == valid_key(key@),
    {
        let mut k: usize = 0;
        while k < key.len()
            invariant
                k <= key.len(),
                forall|i: int| 0 <= i < k ==> char_is_alphanumeric(#[trigger] key@[i]) || key@[i]
                    == '_',
            decreases key.len() - k,
        {
            if !(is_alphanumeric(key[k]) || key[k] == '_') {
                return false;
            }
            k += 1;
        }
        true
    }

    /// Parses one trimmed, non-blank, non-comment line numbered `n`.
    fn parse_line(&mut self, t: &Vec<char>, n: usize) -> (r: Result<(), Vec<char>>)
        requires
            old(self).wf(),
        ensures
            final(self).wf(),
            final(self).environment() == old(self).environment(),
            match parse_entry(t@, n as nat, old(self).vars(), old(self).environment()) {
                Ok(kv) => r is Ok && final(self).vars() == insert_pair(
                    old(self).vars(),
                    kv.0,
                    kv.1,
                ),
                Err(e) => r is Err && r->Err_0@ == e && final(self).vars() == old(self).vars(),
            },
    {
        let mut eqs: Vec<char> = Vec::new();
        eqs.push('=');
        assert(eqs@ =~= seq!['=']);
        let eq = find_exec(t, &eqs, 0);
        let key = trim_exec(&copy_range(t, 0, eq));
        if eq >= t.len() {
            let mut m = chars_of("Invalid format at line ");
            append_all(&mut m, &decimal_exec(n));
            append_all(&mut m, &chars_of(": missing '='"));
            return Err(m);
        }
        if key.len() == 0 {
            let mut m = chars_of("Empty key at line ");
            append_all(&mut m, &decimal_exec(n));
            return Err(m);
        }
        if !Self::valid_key_exec(&key) {
            let mut m = chars_of("Invalid key format at line ");
            append_all(&mut m, &decimal_exec(n));
            append_all(&mut m, &chars_of(": '"));
            append_all(&mut m, &key);
            append_all(&mut m, &chars_of("'"));
            return Err(m);
        }
        let value = trim_exec(&copy_range(t, eq + 1, t.len()));
        match self.parse_value(&value, n) {
            Ok(v) => {
                self.insert(key, v);
                Ok(())
            },
            Err(e) => Err(e),
        }
    }

    /// Parses the definitions of a text, adding them to the loaded
    /// variables. The first bad line stops the parse with its error; the
    /// lines before it stay loaded.
    pub fn parse_content(&mut self, content: &str) -> (r: Result<(), String>)
        requires
            old(self).wf(),
        ensures
            final(self).wf(),
            final(self).environment() == old(self).environment(),
            final(self).vars() == parse_lines_from(
                split_lines(content@),
                0,
                old(self).vars(),
                old(self).environment(),
            ).0,
            match parse_lines_from(
                split_lines(content@),
                0,
                old(self).vars(),
                old(self).environment(),
            ).1 {
                None => r is Ok,
                Some(e) => r is Err && r->Err_0@ == e,
            },
    {
        let ls = split_lines_exec(&chars_of(content));
        let ghost v = views(ls@);
        let ghost env = self.environment();
        let ghost goal = parse_lines_from(v, 0, self.vars(), env);
        let mut i: usize = 0;
        let mut failure: Option<Vec<char>> = None;
        while i < ls.len() && failure.is_none()
            invariant
                i <= ls.len(),
                v == views(ls@),
                self.wf(),
                self.environment() == env,
                failure is None ==> parse_lines_from(v, i as int, self.vars(), env) == goal,
                failure is Some ==> goal == (self.vars(), Some(failure->0@)),
            decreases ls.len() - i,
        {
            let t = trim_exec(&ls[i]);
            assert(t@ == trim(v[i as int]));
            if t.len() == 0 || t[0] == '#' {
                i += 1;
            } else {
                match self.parse_line(&t, i + 1) {
                    Ok(()) => {
                        i += 1;
                    },
                    Err(e) => {
                        failure = Some(e);
                        i += 1;
                    },
                }
            }
        }
        match failure {
            Some(e) => Err(string_of(&e)),
            None => Ok(()),
        }
    }
}

} // verus!
