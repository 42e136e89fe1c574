//! The persisted configuration record: schema, defaults, and a verified
//! TOML-style serialization with an exact round-trip guarantee.

use vstd::prelude::*;

verus! {

/// Which installed location of the managed clash resource to use.
/// The serialized tag spellings `System` and `Local` are part of the
/// on-disk format and must not change.
#[derive(Debug, Clone, Copy, PartialEq, Eq, Structural)]
pub enum ClashPath {
    System,
    Local,
}

/// The persisted application configuration.
#[derive(Debug)]
pub struct Config {
    pub clash_path: ClashPath,
    pub update_url: String,
}

/// Mathematical model of a `Config`: the enum tag and the URL as a
/// sequence of characters.
#[verifier::ext_equal]
pub struct ConfigModel {
    pub clash_path: ClashPath,
    pub update_url: Seq<char>,
}

impl View for Config {
    type V = ConfigModel;

    open spec fn view(&self) -> ConfigModel {
        ConfigModel { clash_path: self.clash_path, update_url: self.update_url@ }
    }
}

/// The canonical default: the local clash location, and a placeholder URL
/// that a real deployment is expected to override.
pub open spec fn default_config() -> ConfigModel {
    ConfigModel { clash_path: ClashPath::Local, update_url: "fake url"@ }
}

impl Default for Config {
    fn default() -> (r: Self)
        ensures
            r@ == default_config(),
    {
        Config { clash_path: ClashPath::Local, update_url: "fake url".to_owned() }
    }
}

/// Why loading failed: the file's text is not a valid serialization of any
/// configuration record (malformed shape, a missing field, a wrongly typed
/// value, or a `clash_path` tag outside `System` and `Local`).
#[derive(Debug, Clone, Copy, PartialEq, Eq, Structural)]
pub enum LoadError {
    Malformed,
}

/// The serialized text up to and including the opening quote of the
/// `update_url` value, when `clash_path` is `System`.
pub open spec fn head_system() -> Seq<char> {
    "clash_path = \"System\"\nupdate_url = \""@
}

/// The serialized text up to and including the opening quote of the
/// `update_url` value, when `clash_path` is `Local`.
pub open spec fn head_local() -> Seq<char> {
    "clash_path = \"Local\"\nupdate_url = \""@
}

pub open spec fn head_of(p: ClashPath) -> Seq<char> {
    match p {
        ClashPath::System => head_system(),
        ClashPath::Local => head_local(),
    }
}

/// The serialized text after the `update_url` value: its closing quote and
/// the final newline.
pub open spec fn closing() -> Seq<char> {
    "\"\n"@
}

/// One character of the URL as it appears in the file: the backslash, the
/// double quote and the two line-break characters are written as two-character
/// escapes, every other character stands for itself.
pub open spec fn escape_char(c: char) -> Seq<char> {
    if c == '\\' {
        seq!['\\', '\\']
    } else if c == '"' {
        seq!['\\', '"']
    } else if c == '\n' {
        seq!['\\', 'n']
    } else if c == '\r' {
        seq!['\\', 'r']
    } else {
        seq![c]
    }
}

pub open spec fn escape(s: Seq<char>) -> Seq<char>
    decreases s.len(),
{
    if s.len() == 0 {
        Seq::empty()
    } else {
        escape_char(s[0]) + escape(s.skip(1))
    }
}

/// The character denoted by a backslash escape, or `None` when the escape
/// is unknown.
pub open spec fn unescape_char(d: char) -> Option<char> {
    if d == '\\' {
        Some('\\')
    } else if d == '"' {
        Some('"')
    } else if d == 'n' {
        Some('\n')
    } else if d == 'r' {
        Some('\r')
    } else {
        None
    }
}

/// Decode the `update_url` value from `t`, the text that follows its opening
/// quote: the value's characters, then the closing quote and the final
/// newline, with nothing after them.
pub open spec fn unescape_value(t: Seq<char>) -> Option<Seq<char>>
    decreases t.len(),
{
    if t.len() == 0 {
        None
    } else if t[0] == '"' {
        if t.len() == 2 && t[1] == '\n' {
            Some(Seq::empty())
        } else {
            None
        }
    } else if t[0] == '\\' {
        if t.len() >= 2 {
            match unescape_char(t[1]) {
                Some(c) => match unescape_value(t.skip(2)) {
                    Some(u) => Some(seq![c] + u),
                    None => None,
                },
                None => None,
            }
        } else {
            None
        }
    } else {
        match unescape_value(t.skip(1)) {
            Some(u) => Some(seq![t[0]] + u),
            None => None,
        }
    }
}

/// The full serialized form of a configuration record.
pub open spec fn render(c: ConfigModel) -> Seq<char> {
    head_of(c.clash_path) + escape(c.update_url) + closing()
}

/// The record denoted by a serialized text, or `None` when the text is not
/// a valid serialization of any record.
pub open spec fn parse(s: Seq<char>) -> Option<ConfigModel> {
    if head_system().is_prefix_of(s) {
        match unescape_value(s.skip(head_system().len() as int)) {
            Some(u) => Some(ConfigModel { clash_path: ClashPath::System, update_url: u }),
            None => None,
        }
    } else if head_local().is_prefix_of(s) {
        match unescape_value(s.skip(head_local().len() as int)) {
            Some(u) => Some(ConfigModel { clash_path: ClashPath::Local, update_url: u }),
            None => None,
        }
    } else {
        None
    }
}

proof fn lemma_escape_append(a: Seq<char>, b: Seq<char>)
    ensures
        escape(a + b) == escape(a) + escape(b),
    decreases a.len(),
{
    if a.len() == 0 {
        assert(a + b =~= b);
        assert(escape(a) + escape(b) =~= escape(b));
    } else {
        lemma_escape_append(a.skip(1), b);
        assert((a + b).skip(1) =~= a.skip(1) + b);
        assert((a + b)[0] == a[0]);
        assert(escape(a + b) =~= escape(a) + escape(b));
    }
}

proof fn lemma_escape_one(c: char)
    ensures
        escape(seq![c]) == escape_char(c),
{
    assert(seq![c].skip(1) =~= Seq::<char>::empty());
    assert(escape(seq![c].skip(1)) =~= Seq::<char>::empty());
    assert(escape(seq![c]) =~= escape_char(c));
}

proof fn lemma_escape_snoc(s: Seq<char>, i: int)
    requires
        0 <= i < s.len(),
    ensures
        escape(s.take(i + 1)) == escape(s.take(i)) + escape_char(s[i]),
{
    assert(s.take(i + 1) =~= s.take(i) + seq![s[i]]);
    lemma_escape_append(s.take(i), seq![s[i]]);
    lemma_escape_one(s[i]);
}

proof fn lemma_unescape_escape(u: Seq<char>)
    ensures
        unescape_value(escape(u) + closing()) == Some(u),
    decreases u.len(),
{
    reveal_strlit("\"\n");
    let t = escape(u) + closing();
    if u.len() == 0 {
        assert(t =~= closing());
        assert(t[0] == '"' && t.len() == 2 && t[1] == '\n');
        assert(unescape_value(t) == Some(Seq::<char>::empty()));
        assert(u =~= Seq::<char>::empty());
    } else {
        let c = u[0];
        let rest = u.skip(1);
        lemma_unescape_escape(rest);
        if c == '\\' || c == '"' || c == '\n' || c == '\r' {
            let d = escape_char(c)[1];
            assert(t[0] == '\\');
            assert(t.len() >= 2);
            assert(t[1] == d);
            assert(unescape_char(d) == Some(c));
            assert(t.skip(2) =~= escape(rest) + closing());
            assert(seq![c] + rest =~= u);
        } else {
            assert(t[0] == c);
            assert(t[0] != '"' && t[0] != '\\');
            assert(t.skip(1) =~= escape(rest) + closing());
            assert(seq![c] + rest =~= u);
        }
    }
}

/// Round trip: every configuration record parses back, unchanged, from its
/// own serialization; serializing loses nothing and parsing inverts it.
pub proof fn lemma_render_parse_round_trip(c: ConfigModel)
    ensures
        parse(render(c)) == Some(c),
{
    reveal_strlit("clash_path = \"System\"\nupdate_url = \"");
    reveal_strlit("clash_path = \"Local\"\nupdate_url = \"");
    let h = head_of(c.clash_path);
    let t = escape(c.update_url) + closing();
    let s = render(c);
    assert(s =~= h + t);
    assert(h =~= s.subrange(0, h.len() as int));
    assert(s.skip(h.len() as int) =~= t);
    lemma_unescape_escape(c.update_url);
    match c.clash_path {
        ClashPath::System => {
            assert(head_system().is_prefix_of(s));
            assert(parse(s) matches Some(m) && m =~= c);
        }
        ClashPath::Local => {
            assert(head_local().len() <= s.len());
            if head_system().is_prefix_of(s) {
                assert(s[14] == head_system()[14]);
                assert(s[14] == head_local()[14]);
                assert(false);
            }
            assert(head_local().is_prefix_of(s));
            assert(parse(s) matches Some(m) && m =~= c);
        }
    }
}

/// Relies on std's `String::push`: appends the given character to the end
/// of the string.
pub assume_specification[ String::push ](s: &mut String, ch: char)
    ensures
        final(s)@ == old(s)@.push(ch),
;

/// The characters of `s`, in order.
fn str_chars(s: &str) -> (r: Vec<char>)
    ensures
        r@ == s@,
{
    let n: usize = s.unicode_len();
    let mut r: Vec<char> = Vec::new();
    let mut i: usize = 0;
    while i < n
        invariant
            i <= n,
            n == s@.len(),
            r@ == s@.take(i as int),
        decreases n - i,
    {
        let c = s.get_char(i);
        r.push(c);
        proof {
            assert(r@ =~= s@.take(i as int + 1));
        }
        i += 1;
    }
    proof {
        assert(r@ =~= s@);
    }
    r
}

/// A string holding exactly the characters of `v`, in order.
fn chars_string(v: &Vec<char>) -> (r: String)
    ensures
        r@ == v@,
{
    let mut r = String::new();
    let mut i: usize = 0;
    while i < v.len()
        invariant
            i <= v.len(),
            r@ == v@.take(i as int),
        decreases v.len() - i,
    {
        r.push(v[i]);
        proof {
            assert(r@ =~= v@.take(i as int + 1));
        }
        i += 1;
    }
    proof {
        assert(r@ =~= v@);
    }
    r
}

/// Whether `p` is a prefix of `v`.
fn has_prefix(v: &Vec<char>, p: &Vec<char>) -> (b: bool)
    ensures
        b == p@.is_prefix_of(v@),
{
    if p.len() > v.len() {
        return false;
    }
    let mut i: usize = 0;
    while i < p.len()
        invariant
            i <= p.len() <= v.len(),
            forall|j: int| 0 <= j < i ==> p@[j] == v@[j],
        decreases p.len() - i,
    {
        if v[i] != p[i] {
            proof {
                assert(!(p@ =~= v@.subrange(0, p@.len() as int)));
            }
            return false;
        }
        i += 1;
    }
    proof {
        assert(p@ =~= v@.subrange(0, p@.len() as int));
    }
    true
}

/// Decode the `update_url` value from `v`, starting at `start`, the position
/// just after the value's opening quote.
fn unescape_from(v: &Vec<char>, start: usize) -> (r: Option<Vec<char>>)
    requires
        start <= v@.len(),
    ensures
        r matches Some(u) ==> unescape_value(v@.skip(start as int)) == Some(u@),
        r is None ==> unescape_value(v@.skip(start as int)) is None,
{
    let mut out: Vec<char> = Vec::new();
    let mut i: usize = start;
    loop
        invariant
            start <= i <= v@.len(),
            unescape_value(v@.skip(start as int)) == (match unescape_value(v@.skip(i as int)) {
                Some(u) => Some(out@ + u),
                None => None::<Seq<char>>,
            }),
        decreases v@.len() - i,
    {
        proof {
            if i < v@.len() {
                assert(v@.skip(i as int)[0] == v@[i as int]);
                assert(v@.skip(i as int).skip(1) =~= v@.skip(i as int + 1));
                if i + 2 <= v@.len() {
                    assert(v@.skip(i as int).skip(2) =~= v@.skip(i as int + 2));
                }
            }
        }
        if i == v.len() {
            proof {
                assert(v@.skip(i as int) =~= Seq::<char>::empty());
            }
            return None;
        }
        let c = v[i];
        if c == '"' {
            if v.len() - i == 2 && v[i + 1] == '\n' {
                proof {
                    let t = v@.skip(i as int);
                    assert(t.len() == 2 && t[0] == '"' && t[1] == '\n');
                    assert(unescape_value(t) == Some(Seq::<char>::empty()));
                    assert(out@ + Seq::<char>::empty() =~= out@);
                }
                return Some(out);
            } else {
                return None;
            }
        } else if c == '\\' {
            if i + 1 < v.len() {
                let d = v[i + 1];
                let dec: Option<char> = if d == '\\' {
                    Some('\\')
                } else if d == '"' {
                    Some('"')
                } else if d == 'n' {
                    Some('\n')
                } else if d == 'r' {
                    Some('\r')
                } else {
                    None
                };
                match dec {
                    Some(cc) => {
                        proof {
                            assert(dec == unescape_char(v@[i as int + 1]));
                        }
                        let ghost out0 = out@;
                        out.push(cc);
                        proof {
                            match unescape_value(v@.skip(i as int + 2)) {
                                Some(u) => {
                                    assert(out@ + u =~= out0 + (seq![cc] + u));
                                },
                                None => {},
                            }
                        }
                        i += 2;
                    },
                    None => {
                        return None;
                    },
                }
            } else {
                return None;
            }
        } else {
            let ghost out0 = out@;
            out.push(c);
            proof {
                match unescape_value(v@.skip(i as int + 1)) {
                    Some(u) => {
                        assert(out@ + u =~= out0 + (seq![c] + u));
                    },
                    None => {},
                }
            }
            i += 1;
        }
    }
}

impl Config {
    /// Serialize to the on-disk text form.
    pub fn to_toml(&self) -> (r: String)
        ensures
            r@ == render(self@),
    {
        let mut out: String = match self.clash_path {
            ClashPath::System => "clash_path = \"System\"\nupdate_url = \"".to_owned(),
            ClashPath::Local => "clash_path = \"Local\"\nupdate_url = \"".to_owned(),
        };
        let url = str_chars(self.update_url.as_str());
        let ghost u = self.update_url@;
        let mut i: usize = 0;
        while i < url.len()
            invariant
                url@ == u,
                i <= url.len(),
                out@ == head_of(self@.clash_path) + escape(u.take(i as int)),
            decreases url.len() - i,
        {
            let c = url[i];
            if c == '\\' {
                out.append("\\\\");
            } else if c == '"' {
                out.append("\\\"");
            } else if c == '\n' {
                out.append("\\n");
            } else if c == '\r' {
                out.append("\\r");
            } else {
                out.push(c);
            }
            proof {
                reveal_strlit("\\\\");
                reveal_strlit("\\\"");
                reveal_strlit("\\n");
                reveal_strlit("\\r");
                lemma_escape_snoc(u, i as int);
                assert(out@ =~= head_of(self@.clash_path) + escape(u.take(i as int + 1)));
            }
            i += 1;
        }
        out.append("\"\n");
        proof {
            assert(u.take(url@.len() as int) =~= u);
            assert(out@ =~= render(self@));
        }
        out
    }

    /// Parse the on-disk text form; the error comes exactly when the text is
    /// not a valid serialization of any record.
    pub fn from_toml(s: &str) -> (r: Result<Config, LoadError>)
        ensures
            r matches Ok(c) ==> parse(s@) == Some(c@),
            r matches Err(e) ==> parse(s@) is None && e == LoadError::Malformed,
    {
        let v = str_chars(s);
        let head_sys = str_chars("clash_path = \"System\"\nupdate_url = \"");
        let head_loc = str_chars("clash_path = \"Local\"\nupdate_url = \"");
        if has_prefix(&v, &head_sys) {
            match unescape_from(&v, head_sys.len()) {
                Some(url) => {
                    let c = Config { clash_path: ClashPath::System, update_url: chars_string(&url) };
                    proof {
                        assert(parse(s@) matches Some(m) && m =~= c@);
                    }
                    Ok(c)
                },
                None => Err(LoadError::Malformed),
            }
        } else if has_prefix(&v, &head_loc) {
            match unescape_from(&v, head_loc.len()) {
                Some(url) => {
                    let c = Config { clash_path: ClashPath::Local, update_url: chars_string(&url) };
                    proof {
                        assert(parse(s@) matches Some(m) && m =~= c@);
                    }
                    Ok(c)
                },
                None => Err(LoadError::Malformed),
            }
        } else {
            Err(LoadError::Malformed)
        }
    }
}

/// Load from what was read at the configuration path: `None` when no file
/// exists there, in which case the default record is returned without an
/// error; `Some` with the file's text when one does, in which case the text
/// must parse.
pub fn load_contents(contents: Option<&str>) -> (r: Result<Config, LoadError>)
    ensures
        contents is None ==> (r matches Ok(c) && c@ == default_config()),
        contents matches Some(s) ==> ((r matches Ok(c) ==> parse(s@) == Some(c@)) && (
        r matches Err(e) ==> parse(s@) is None && e == LoadError::Malformed)),
{
    match contents {
        None => Ok(Config::default()),
        Some(s) => Config::from_toml(s),
    }
}

impl PartialEq for Config {
    fn eq(&self, other: &Self) -> bool {
        self.clash_path == other.clash_path && self.update_url == other.update_url
    }
}

impl vstd::std_specs::cmp::PartialEqSpecImpl for Config {
    open spec fn obeys_eq_spec() -> bool {
        true
    }

    open spec fn eq_spec(&self, other: &Self) -> bool {
        self.clash_path == other.clash_path && self.update_url@ == other.update_url@
    }
}

} // verus!
