use crate::model::CursorInstallInfo;
use crate::paths::reported_existing;
use vstd::prelude::*;
use vstd::std_specs::iter::IteratorSpec;

verus! {

/// Whether `c` is a white-space character (Unicode White_Space), which
/// trimming removes.
pub open spec fn is_space(c: char) -> bool {
    ('\u{9}' <= c && c <= '\u{d}') || c == ' ' || c == '\u{85}' || c == '\u{a0}' || c
        == '\u{1680}' || ('\u{2000}' <= c && c <= '\u{200a}') || c == '\u{2028}' || c
        == '\u{2029}' || c == '\u{202f}' || c == '\u{205f}' || c == '\u{3000}'
}

pub open spec fn trim_start(s: Seq<char>) -> Seq<char>
    decreases s.len(),
{
    if s.len() > 0 && is_space(s[0]) {
        trim_start(s.subrange(1, s.len() as int))
    } else {
        s
    }
}

pub open spec fn trim_end(s: Seq<char>) -> Seq<char>
    decreases s.len(),
{
    if s.len() > 0 && is_space(s.last()) {
        trim_end(s.drop_last())
    } else {
        s
    }
}

/// `s` without leading and trailing white space.
pub open spec fn trimmed(s: Seq<char>) -> Seq<char> {
    trim_end(trim_start(s))
}

/// `s` without any occurrence of `c`.
pub open spec fn without_char(s: Seq<char>, c: char) -> Seq<char>
    decreases s.len(),
{
    if s.len() == 0 {
        s
    } else if s.last() == c {
        without_char(s.drop_last(), c)
    } else {
        without_char(s.drop_last(), c).push(s.last())
    }
}

/// The first position at or after `i` where `pat` occurs in `s`.
pub open spec fn find_from(s: Seq<char>, pat: Seq<char>, i: int) -> Option<int>
    decreases s.len() - i,
{
    if i < 0 || i + pat.len() > s.len() {
        None
    } else if s.subrange(i, i + pat.len()) == pat {
        Some(i)
    } else if i >= s.len() {
        None
    } else {
        find_from(s, pat, i + 1)
    }
}

/// The characters of `s`, in order.
pub fn chars_of(s: &str) -> (r: Vec<char>)
    ensures
        r@ == s@,
{
    broadcast use vstd::string::axiom_spec_iter, vstd::string::next_postcondition;

    let mut it = s.chars();
    let mut r: Vec<char> = Vec::new();
    loop
        invariant
            r@.len() <= s@.len(),
            r@ =~= s@.subrange(0, r@.len() as int),
            it.remaining() =~= s@.subrange(r@.len() as int, s@.len() as int),
            it.obeys_prophetic_iter_laws(),
        ensures
            r@ == s@,
        decreases s@.len() - r@.len(),
    {
        let ghost before = it.remaining();
        match it.next() {
            Some(c) => {
                r.push(c);
            },
            None => {
                assert(before.len() == 0);
                assert(r@ =~= s@);
                break ;
            },
        }
    }
    r
}

fn slice_chars(s: &Vec<char>, from: usize, to: usize) -> (r: Vec<char>)
    requires
        from <= to <= s@.len(),
    ensures
        r@ == s@.subrange(from as int, to as int),
{
    let mut r: Vec<char> = Vec::new();
    let mut i: usize = from;
    while i < to
        invariant
            from <= i <= to,
            to <= s@.len(),
            r@ =~= s@.subrange(from as int, i as int),
        decreases to - i,
    {
        r.push(s[i]);
        i = i + 1;
    }
    r
}

fn push_all(out: &mut Vec<char>, s: &Vec<char>)
    ensures
        final(out)@ == old(out)@ + s@,
{
    let ghost start = out@;
    let mut i: usize = 0;
    while i < s.len()
        invariant
            0 <= i <= s@.len(),
            out@ =~= start + s@.subrange(0, i as int),
        decreases s@.len() - i,
    {
        out.push(s[i]);
        i = i + 1;
    }
    assert(s@.subrange(0, s@.len() as int) =~= s@);
}

fn occurs_at(s: &Vec<char>, i: usize, pat: &Vec<char>) -> (r: bool)
    requires
        i + pat@.len() <= s@.len(),
    ensures
        r == (s@.subrange(i as int, i + pat@.len()) == pat@),
{
    let n = s.len();
    let mut j: usize = 0;
    while j < pat.len()
        invariant
            0 <= j <= pat@.len(),
            n == s@.len(),
            i + pat@.len() <= n,
            forall|k: int| 0 <= k < j ==> s@[i + k] == pat@[k],
        decreases pat@.len() - j,
    {
        if s[i + j] != pat[j] {
            assert(s@.subrange(i as int, i + pat@.len())[j as int] != pat@[j as int]);
            return false;
        }
        j = j + 1;
    }
    assert(s@.subrange(i as int, i + pat@.len()) =~= pat@);
    true
}

/// The first position at or after `from` where `pat` occurs in `s`.
pub fn find_chars(s: &Vec<char>, pat: &Vec<char>, from: usize) -> (r: Option<usize>)
    ensures
        match r {
            Some(i) => find_from(s@, pat@, from as int) == Some(i as int),
            None => find_from(s@, pat@, from as int) is None,
        },
{
    let n = s.len();
    let m = pat.len();
    if from > n {
        return None;
    }
    let mut i: usize = from;
    while m <= n - i
        invariant
            from <= i <= n,
            n == s@.len(),
            m == pat@.len(),
            find_from(s@, pat@, from as int) == find_from(s@, pat@, i as int),
        decreases n - i,
    {
        if occurs_at(s, i, pat) {
            return Some(i);
        }
        if i == n {
            return None;
        }
        i = i + 1;
    }
    None
}

fn is_space_exec(c: char) -> (r: bool)
    ensures
        r == is_space(c),
{
    ('\u{9}' <= c && c <= '\u{d}') || c == ' ' || c == '\u{85}' || c == '\u{a0}' || c
        == '\u{1680}' || ('\u{2000}' <= c && c <= '\u{200a}') || c == '\u{2028}' || c
        == '\u{2029}' || c == '\u{202f}' || c == '\u{205f}' || c == '\u{3000}'
}

/// `s` without leading and trailing white space.
pub fn trim_chars(s: &Vec<char>) -> (r: Vec<char>)
    ensures
        r@ == trimmed(s@),
{
    let n = s.len();
    assert(s@.subrange(0, n as int) =~= s@);
    let mut a: usize = 0;
    while a < n && is_space_exec(s[a])
        invariant
            0 <= a <= n,
            n == s@.len(),
            trim_start(s@) == trim_start(s@.subrange(a as int, n as int)),
        decreases n - a,
    {
        assert(s@.subrange(a as int, n as int).subrange(1, n - a) =~= s@.subrange(a + 1, n as int));
        a = a + 1;
    }
    let ghost front = s@.subrange(a as int, n as int);
    assert(trim_start(front) == front);
    let mut b: usize = n;
    while b > a && is_space_exec(s[b - 1])
        invariant
            a <= b <= n,
            n == s@.len(),
            front == s@.subrange(a as int, n as int),
            trim_end(front) == trim_end(s@.subrange(a as int, b as int)),
        decreases b - a,
    {
        assert(s@.subrange(a as int, b as int).drop_last() =~= s@.subrange(a as int, b - 1));
        b = b - 1;
    }
    slice_chars(s, a, b)
}

/// `s` without any occurrence of `c`.
pub fn remove_char(s: &Vec<char>, c: char) -> (r: Vec<char>)
    ensures
        r@ == without_char(s@, c),
{
    let mut r: Vec<char> = Vec::new();
    let mut i: usize = 0;
    while i < s.len()
        invariant
            0 <= i <= s@.len(),
            r@ == without_char(s@.subrange(0, i as int), c),
        decreases s@.len() - i,
    {
        assert(s@.subrange(0, i + 1).drop_last() =~= s@.subrange(0, i as int));
        if s[i] != c {
            r.push(s[i]);
        }
        i = i + 1;
    }
    assert(s@.subrange(0, s@.len() as int) =~= s@);
    r
}

/// Relies on std's `FromIterator<char>` for `String`: the characters in order.
#[verifier::external_body]
fn string_from_chars(v: &Vec<char>) -> (r: String)
    ensures
        r@ == v@,
{
    v.iter().collect()
}

proof fn lemma_find_from_found(s: Seq<char>, pat: Seq<char>, from: int, i: int)
    requires
        find_from(s, pat, from) == Some(i),
    ensures
        from <= i,
        i + pat.len() <= s.len(),
        s.subrange(i, i + pat.len()) == pat,
    decreases s.len() - from,
{
    if from >= 0 && from + pat.len() <= s.len() && s.subrange(from, from + pat.len()) != pat
        && from < s.len() {
        lemma_find_from_found(s, pat, from + 1, i);
    }
}

/// The language listed after `dictionaries":` in the preferences text, up to
/// the next `]`, without quotes and brackets and trimmed; `None` where there
/// is no such list or it is blank.
pub open spec fn preferences_language(s: Seq<char>) -> Option<Seq<char>> {
    let marker = "dictionaries\":"@;
    match find_from(s, marker, 0) {
        None => None,
        Some(p) => {
            let rest = s.subrange(p + marker.len(), s.len() as int);
            match find_from(rest, "]"@, 0) {
                None => None,
                Some(e) => {
                    let lang = trimmed(without_char(without_char(rest.subrange(0, e), '"'), '['));
                    if lang.len() == 0 {
                        None
                    } else {
                        Some(lang)
                    }
                },
            }
        },
    }
}

/// The language set in the application's preferences text.
pub fn language_from_preferences(text: &str) -> (r: Option<String>)
    ensures
        match r {
            Some(l) => preferences_language(text@) == Some(l@),
            None => preferences_language(text@) is None,
        },
{
    let s = chars_of(text);
    let n = s.len();
    let marker = chars_of("dictionaries\":");
    let close = chars_of("]");
    let p = match find_chars(&s, &marker, 0) {
        Some(p) => p,
        None => return None,
    };
    proof {
        lemma_find_from_found(s@, marker@, 0, p as int);
    }
    let rest = slice_chars(&s, p + marker.len(), n);
    let e = match find_chars(&rest, &close, 0) {
        Some(e) => e,
        None => return None,
    };
    proof {
        lemma_find_from_found(rest@, close@, 0, e as int);
    }
    let seg = slice_chars(&rest, 0, e);
    let no_quotes = remove_char(&seg, '"');
    let no_brackets = remove_char(&no_quotes, '[');
    let lang = trim_chars(&no_brackets);
    if lang.len() == 0 {
        None
    } else {
        Some(string_from_chars(&lang))
    }
}

/// The git author recorded in the application's logs, as `name (email)`,
/// from the text after `global state: `: the trimmed name before `<` and the
/// address between `<` and the next `>`, both non-empty.
pub open spec fn git_log_user(s: Seq<char>) -> Option<Seq<char>> {
    let marker = "global state: "@;
    match find_from(s, marker, 0) {
        None => None,
        Some(p) => {
            let info = s.subrange(p + marker.len(), s.len() as int);
            match find_from(info, "<"@, 0) {
                None => None,
                Some(lt) => match find_from(info, ">"@, lt) {
                    None => None,
                    Some(gt) => {
                        let name = trimmed(info.subrange(0, lt));
                        let email = info.subrange(lt + 1, gt);
                        if name.len() > 0 && email.len() > 0 {
                            Some(name + " ("@ + email + ")"@)
                        } else {
                            None
                        }
                    },
                },
            }
        },
    }
}

/// The git author found in the application's log lines.
pub fn user_from_git_log(text: &str) -> (r: Option<String>)
    ensures
        match r {
            Some(u) => git_log_user(text@) == Some(u@),
            None => git_log_user(text@) is None,
        },
{
    let s = chars_of(text);
    let n = s.len();
    let marker = chars_of("global state: ");
    let lt_mark = chars_of("<");
    let gt_mark = chars_of(">");
    let p = match find_chars(&s, &marker, 0) {
        Some(p) => p,
        None => return None,
    };
    proof {
        lemma_find_from_found(s@, marker@, 0, p as int);
    }
    let info = slice_chars(&s, p + marker.len(), n);
    let lt = match find_chars(&info, &lt_mark, 0) {
        Some(lt) => lt,
        None => return None,
    };
    let gt = match find_chars(&info, &gt_mark, lt) {
        Some(gt) => gt,
        None => return None,
    };
    proof {
        lemma_find_from_found(info@, lt_mark@, 0, lt as int);
        lemma_find_from_found(info@, gt_mark@, lt as int, gt as int);
        reveal_strlit("<");
        reveal_strlit(">");
        assert(info@.subrange(lt as int, lt + 1)[0] == '<');
        assert(info@.subrange(gt as int, gt + 1)[0] == '>');
    }
    let name = trim_chars(&slice_chars(&info, 0, lt));
    let email = slice_chars(&info, lt + 1, gt);
    if name.len() > 0 && email.len() > 0 {
        let mut out = name;
        push_all(&mut out, &chars_of(" ("));
        push_all(&mut out, &email);
        push_all(&mut out, &chars_of(")"));
        Some(string_from_chars(&out))
    } else {
        None
    }
}

/// The e-mail address recorded in the crash reporter's scope text: the
/// characters after `"email":` and one more (the opening quote), up to the
/// next `"`; shown as `用户(email)`, "user (email)".
pub open spec fn sentry_user(s: Seq<char>) -> Option<Seq<char>> {
    let marker = "\"email\":"@;
    match find_from(s, marker, 0) {
        None => None,
        Some(p) => if p + marker.len() + 1 > s.len() {
            None
        } else {
            let start = p + marker.len() + 1;
            match find_from(s, "\""@, start) {
                None => None,
                Some(e) => {
                    let email = s.subrange(start, e);
                    if email.len() == 0 {
                        None
                    } else {
                        Some("\u{7528}\u{6237}("@ + email + ")"@)
                    }
                },
            }
        },
    }
}

/// The user, by e-mail, found in the crash reporter's scope text.
pub fn user_from_sentry_scope(text: &str) -> (r: Option<String>)
    ensures
        match r {
            Some(u) => sentry_user(text@) == Some(u@),
            None => sentry_user(text@) is None,
        },
{
    let s = chars_of(text);
    let n = s.len();
    let marker = chars_of("\"email\":");
    let quote = chars_of("\"");
    let p = match find_chars(&s, &marker, 0) {
        Some(p) => p,
        None => return None,
    };
    proof {
        lemma_find_from_found(s@, marker@, 0, p as int);
    }
    if n - p <= marker.len() {
        return None;
    }
    let start = p + marker.len() + 1;
    let e = match find_chars(&s, &quote, start) {
        Some(e) => e,
        None => return None,
    };
    proof {
        lemma_find_from_found(s@, quote@, start as int, e as int);
    }
    let email = slice_chars(&s, start, e);
    if email.len() == 0 {
        None
    } else {
        let mut out = chars_of("\u{7528}\u{6237}(");
        push_all(&mut out, &email);
        push_all(&mut out, &chars_of(")"));
        Some(string_from_chars(&out))
    }
}

/// The display language that the installed language packs indicate:
/// Chinese where `zh-cn` occurs, else English where `en` occurs.
pub open spec fn language_pack_language(s: Seq<char>) -> Option<Seq<char>> {
    if find_from(s, "zh-cn"@, 0) is Some {
        Some("zh-cn"@)
    } else if find_from(s, "en"@, 0) is Some {
        Some("en"@)
    } else {
        None
    }
}

/// The language that the language-pack index text indicates.
pub fn language_from_language_packs(text: &str) -> (r: Option<String>)
    ensures
        match r {
            Some(l) => language_pack_language(text@) == Some(l@),
            None => language_pack_language(text@) is None,
        },
{
    let s = chars_of(text);
    if find_chars(&s, &chars_of("zh-cn"), 0).is_some() {
        Some(String::from_str("zh-cn"))
    } else if find_chars(&s, &chars_of("en"), 0).is_some() {
        Some(String::from_str("en"))
    } else {
        None
    }
}

/// The account name in an install path below `/Users/`: the characters
/// after it up to the next `/`, when there are any.
pub open spec fn install_path_user(s: Seq<char>) -> Option<Seq<char>> {
    let marker = "/Users/"@;
    match find_from(s, marker, 0) {
        None => None,
        Some(p) => {
            let rest = s.subrange(p + marker.len(), s.len() as int);
            match find_from(rest, "/"@, 0) {
                None => None,
                Some(u) => if u == 0 {
                    None
                } else {
                    Some(rest.subrange(0, u))
                },
            }
        },
    }
}

/// The account name that an install path below `/Users/` names.
pub fn user_from_install_path(path: &str) -> (r: Option<String>)
    ensures
        match r {
            Some(u) => install_path_user(path@) == Some(u@),
            None => install_path_user(path@) is None,
        },
{
    let s = chars_of(path);
    let n = s.len();
    let marker = chars_of("/Users/");
    let p = match find_chars(&s, &marker, 0) {
        Some(p) => p,
        None => return None,
    };
    proof {
        lemma_find_from_found(s@, marker@, 0, p as int);
    }
    let rest = slice_chars(&s, p + marker.len(), n);
    let u = match find_chars(&rest, &chars_of("/"), 0) {
        Some(u) => u,
        None => return None,
    };
    proof {
        lemma_find_from_found(rest@, "/"@, 0, u as int);
    }
    if u == 0 {
        None
    } else {
        Some(string_from_chars(&slice_chars(&rest, 0, u)))
    }
}

/// The first line of `s`, without its line ending (`\n` or `\r\n`);
/// `None` for the empty text, which has no line.
pub open spec fn first_line_of(s: Seq<char>) -> Option<Seq<char>> {
    if s.len() == 0 {
        None
    } else {
        match find_from(s, "\n"@, 0) {
            None => Some(s),
            Some(k) => {
                let l = s.subrange(0, k);
                if l.len() > 0 && l.last() == '\r' {
                    Some(l.drop_last())
                } else {
                    Some(l)
                }
            },
        }
    }
}

/// The first line of a command's output.
pub fn first_line(text: &str) -> (r: Option<String>)
    ensures
        match r {
            Some(l) => first_line_of(text@) == Some(l@),
            None => first_line_of(text@) is None,
        },
{
    let s = chars_of(text);
    if s.len() == 0 {
        return None;
    }
    let newline = chars_of("\n");
    match find_chars(&s, &newline, 0) {
        None => Some(string_from_chars(&s)),
        Some(k) => {
            proof {
                lemma_find_from_found(s@, newline@, 0, k as int);
            }
            if k > 0 && s[k - 1] == '\r' {
                Some(string_from_chars(&slice_chars(&s, 0, k - 1)))
            } else {
                Some(string_from_chars(&slice_chars(&s, 0, k)))
            }
        },
    }
}

/// `text` without leading and trailing white space.
pub fn trim_text(text: &str) -> (r: String)
    ensures
        r@ == trimmed(text@),
{
    string_from_chars(&trim_chars(&chars_of(text)))
}

/// What was read about an installation whose bundle information exists:
/// each text is `None` where it could not be read.
pub struct InstallSources {
    /// The output of the version query.
    pub version_output: Option<String>,
    /// The application's preferences file.
    pub preferences: Option<String>,
    /// The log lines that record the git author.
    pub git_log: Option<String>,
    /// The crash reporter's scope file.
    pub sentry_scope: Option<String>,
    /// The language-pack index.
    pub language_packs: Option<String>,
    /// Whether the Chinese language-pack directory exists.
    pub zh_pack_dir_exists: bool,
}

/// The display language: from the preferences, else from the language
/// packs, else Chinese where its pack directory exists, else empty.
pub open spec fn install_language(src: InstallSources) -> Seq<char> {
    let from_prefs = match src.preferences {
        Some(t) => preferences_language(t@),
        None => None,
    };
    let from_packs = match src.language_packs {
        Some(t) => language_pack_language(t@),
        None => None,
    };
    match from_prefs {
        Some(l) => l,
        None => match from_packs {
            Some(l) => l,
            None => if src.zh_pack_dir_exists {
                "zh-cn"@
            } else {
                Seq::empty()
            },
        },
    }
}

/// The user: from the git log, else from the crash reporter's scope, else
/// the account that the install path names, else empty.
pub open spec fn install_user(path: Seq<char>, src: InstallSources) -> Seq<char> {
    let from_log = match src.git_log {
        Some(t) => git_log_user(t@),
        None => None,
    };
    let from_scope = match src.sentry_scope {
        Some(t) => sentry_user(t@),
        None => None,
    };
    match from_log {
        Some(u) => u,
        None => match from_scope {
            Some(u) => u,
            None => match install_path_user(path) {
                Some(u) => u,
                None => Seq::empty(),
            },
        },
    }
}

/// The installation information for the bundle at `install_path`. Where
/// its bundle information is missing (`sources` is `None`) only the path is
/// known; otherwise the version is the trimmed version output, and language
/// and user come from the first source that gives them.
pub fn install_info_from_sources(install_path: &str, sources: Option<&InstallSources>) -> (r:
    CursorInstallInfo)
    ensures
        r.install_path@ == install_path@,
        match sources {
            None => r.install_language@.len() == 0 && r.install_version@.len() == 0
                && r.install_user@.len() == 0,
            Some(src) => {
                &&& r.install_version@ == match src.version_output {
                    Some(t) => trimmed(t@),
                    None => Seq::empty(),
                }
                &&& r.install_language@ == install_language(*src)
                &&& r.install_user@ == install_user(install_path@, *src)
            },
        },
{
    let src = match sources {
        Some(src) => src,
        None => {
            return CursorInstallInfo::new(
                String::from_str(install_path),
                String::new(),
                String::new(),
                String::new(),
            )
        },
    };
    let version = match &src.version_output {
        Some(t) => trim_text(t.as_str()),
        None => String::new(),
    };
    let from_prefs = match &src.preferences {
        Some(t) => language_from_preferences(t.as_str()),
        None => None,
    };
    let language = match from_prefs {
        Some(l) => l,
        None => {
            let from_packs = match &src.language_packs {
                Some(t) => language_from_language_packs(t.as_str()),
                None => None,
            };
            match from_packs {
                Some(l) => l,
                None => if src.zh_pack_dir_exists {
                    String::from_str("zh-cn")
                } else {
                    String::new()
                },
            }
        },
    };
    let from_log = match &src.git_log {
        Some(t) => user_from_git_log(t.as_str()),
        None => None,
    };
    let user = match from_log {
        Some(u) => u,
        None => {
            let from_scope = match &src.sentry_scope {
                Some(t) => user_from_sentry_scope(t.as_str()),
                None => None,
            };
            match from_scope {
                Some(u) => u,
                None => match user_from_install_path(install_path) {
                    Some(u) => u,
                    None => String::new(),
                },
            }
        },
    };
    CursorInstallInfo::new(String::from_str(install_path), language, version, user)
}

/// The application bundles to look for, in order: the system-wide one, then
/// the one below the home directory `home`.
pub open spec fn bundle_candidates_of(home: Seq<char>) -> Seq<Seq<char>> {
    seq!["/Applications/Cursor.app"@, home + "/Applications/Cursor.app"@]
}

/// The application bundles to look for, in order.
pub fn bundle_candidates(home: &str) -> (r: Vec<String>)
    ensures
        r@.map_values(|s: String| s@) == bundle_candidates_of(home@),
{
    let mut below_home = String::from_str(home);
    below_home.append("/Applications/Cursor.app");
    let r = vec![String::from_str("/Applications/Cursor.app"), below_home];
    assert(r@.map_values(|s: String| s@) =~= bundle_candidates_of(home@));
    r
}

/// The install path: the first bundle candidate that the existence report
/// `present` marks present (entry `i` reports on candidate `i`), else the
/// first line of the search output `search`, else empty.
pub open spec fn chosen_install_path(home: Seq<char>, present: Seq<bool>, search: Option<&str>) -> Seq<
    char,
> {
    let c = bundle_candidates_of(home);
    if reported_existing(present, 0) {
        c[0]
    } else if reported_existing(present, 1) {
        c[1]
    } else {
        match search {
            Some(t) => match first_line_of(t@) {
                Some(l) => l,
                None => Seq::empty(),
            },
            None => Seq::empty(),
        }
    }
}

/// The installed bundle's path, from the existence report on the bundle
/// candidates and, where none exists, the output of a search for the
/// application (`None` where no search ran or it failed).
pub fn choose_install_path(home: &str, present: &Vec<bool>, search_output: Option<&str>) -> (r:
    String)
    ensures
        r@ == chosen_install_path(home@, present@, search_output),
{
    let c = bundle_candidates(home);
    proof {
        assert(bundle_candidates_of(home@).len() == 2);
        assert(c@.map_values(|s: String| s@).len() == c@.len());
        assert(c@.map_values(|s: String| s@)[0] == c@[0]@);
        assert(c@.map_values(|s: String| s@)[1] == c@[1]@);
    }
    if present.len() > 0 && present[0] {
        c[0].clone()
    } else if present.len() > 1 && present[1] {
        c[1].clone()
    } else {
        match search_output {
            Some(t) => match first_line(t) {
                Some(l) => l,
                None => String::new(),
            },
            None => String::new(),
        }
    }
}

} // verus!
