//! Resolution of pins (`name` or `name@sha256:<hex>`) to the skill packages
//! that a run mounts, with the allow/deny policy, the optional scan and the
//! per-worker token budget.
use crate::config::Config;
use crate::library::{FoundSkill, duplicate_name_message};
use crate::run::Worker;
use crate::text::{
    chars_of, clone_strings, contains_string, decimal, find_char, find_char_spec, is_whitespace,
    join_with, lemma_find_char, push_chars, push_decimal, push_joined, push_signed, push_str,
    signed_decimal, slice_chars, starts_with, starts_with_spec, string_from_chars, to_string,
    trim_end_spec, views};
use crate::tokens::{estimate};
use vstd::prelude::*;

verus! {

/// A skill resolved, hashed and admitted for a run.
#[derive(Debug, Clone, PartialEq)]
pub struct Locked {
    pub name: String,
    pub source: String,
    pub hash: String,
    pub scan: String,
    pub description_tokens: u64,
}

impl Locked {
    /// A copy of this locked skill.
    pub fn copy(&self) -> (r: Locked)
        ensures
            r == *self,
    {
        Locked {
            name: self.name.clone(),
            source: self.source.clone(),
            hash: self.hash.clone(),
            scan: self.scan.clone(),
            description_tokens: self.description_tokens,
        }
    }
}

/// A copy of a list of locked skills.
pub fn copy_locked(v: &Vec<Locked>) -> (r: Vec<Locked>)
    ensures
        r@ == v@,
{
    let mut r: Vec<Locked> = Vec::new();
    let mut i: usize = 0;
    while i < v.len()
        invariant
            0 <= i <= v@.len(),
            r@ == v@.take(i as int),
        decreases v@.len() - i,
    {
        r.push(v[i].copy());
        i = i + 1;
        assert(v@.take(i as int) =~= v@.take(i - 1).push(v@[i - 1]));
    }
    assert(v@.take(i as int) =~= v@);
    r
}

/// A parsed pin.
#[derive(Debug, Clone, PartialEq)]
pub struct Pin {
    pub name: String,
    pub pinned_hash: Option<String>,
}

impl Pin {
    /// A copy of this pin.
    pub fn copy(&self) -> (r: Pin)
        ensures
            r == *self,
    {
        Pin {
            name: self.name.clone(),
            pinned_hash: match &self.pinned_hash {
                Some(h) => Some(h.clone()),
                None => None,
            },
        }
    }
}

/// A lowercase hexadecimal digit.
pub open spec fn is_lower_hex(c: char) -> bool {
    (48 <= c as int <= 57) || (97 <= c as int <= 102)
}

/// A SHA-256 digest in lowercase hex.
pub open spec fn is_hex_digest(d: Seq<char>) -> bool {
    d.len() == 64 && forall|i: int| 0 <= i < d.len() ==> is_lower_hex(#[trigger] d[i])
}

/// The refusal of a pin whose `@` part is not `sha256:` and 64 lowercase hex digits.
pub open spec fn tag_pin_message(pin: Seq<char>) -> Seq<char> {
    "tag pins are not supported yet; pin by hash (got '"@ + pin + "')"@
}

/// A pin without `@` names a skill; with one, the part before the first `@`
/// names it and the part after must be `sha256:` and a lowercase hex digest.
pub open spec fn parse_pin_spec(pin: Seq<char>) -> Result<(Seq<char>, Option<Seq<char>>), Seq<char>> {
    let at = find_char_spec(pin, '@');
    if at == pin.len() {
        Ok((pin, None))
    } else {
        let tail = pin.skip(at as int + 1);
        let digest = if starts_with_spec(tail, "sha256:"@) {
            tail.skip(7)
        } else {
            Seq::empty()
        };
        if is_hex_digest(digest) {
            Ok((pin.take(at as int), Some("sha256:"@ + digest)))
        } else {
            Err(tag_pin_message(pin))
        }
    }
}

/// The view of a parsed pin.
pub open spec fn pin_view(p: Pin) -> (Seq<char>, Option<Seq<char>>) {
    (
        p.name@,
        match p.pinned_hash {
            Some(h) => Some(h@),
            None => None,
        },
    )
}

/// Parses a pin (see `parse_pin_spec`).
pub fn parse_pin(pin: &str) -> (r: Result<Pin, String>)
    ensures
        match r {
            Ok(p) => parse_pin_spec(pin@) == Ok::<_, Seq<char>>(pin_view(p)),
            Err(m) => parse_pin_spec(pin@) == Err::<(Seq<char>, Option<Seq<char>>), _>(m@),
        },
{
    let v = chars_of(pin);
    let at = find_char(&v, '@');
    proof {
        lemma_find_char(v@, '@');
    }
    if at == v.len() {
        return Ok(Pin { name: to_string(pin), pinned_hash: None });
    }
    let tail = slice_chars(&v, at + 1, v.len());
    assert(tail@ =~= v@.skip(at + 1));
    let digest = if starts_with(&tail, "sha256:") {
        proof {
            reveal_strlit("sha256:");
        }
        slice_chars(&tail, 7, tail.len())
    } else {
        Vec::new()
    };
    proof {
        if starts_with_spec(tail@, "sha256:"@) {
            reveal_strlit("sha256:");
            assert(digest@ =~= tail@.skip(7));
        } else {
            assert(digest@ =~= Seq::<char>::empty());
        }
    }
    let mut valid = digest.len() == 64;
    let mut i: usize = 0;
    while valid && i < digest.len()
        invariant
            0 <= i <= digest@.len(),
            valid ==> digest@.len() == 64,
            valid ==> forall|j: int| 0 <= j < i ==> is_lower_hex(#[trigger] digest@[j]),
            !valid ==> !is_hex_digest(digest@),
        decreases digest@.len() - i,
    {
        let c = digest[i];
        if !(('0' <= c && c <= '9') || ('a' <= c && c <= 'f')) {
            valid = false;
        }
        i = i + 1;
    }
    if valid {
        let mut h: Vec<char> = Vec::new();
        push_str(&mut h, "sha256:");
        push_chars(&mut h, &digest);
        let name = string_from_chars(&slice_chars(&v, 0, at));
        assert(v@.subrange(0, at as int) =~= v@.take(at as int));
        Ok(Pin { name, pinned_hash: Some(string_from_chars(&h)) })
    } else {
        let mut m: Vec<char> = Vec::new();
        push_str(&mut m, "tag pins are not supported yet; pin by hash (got '");
        push_str(&mut m, pin);
        push_str(&mut m, "')");
        Err(string_from_chars(&m))
    }
}

/// A package found for a pin, with the hash of its tree.
#[derive(Debug, Clone, PartialEq)]
pub struct Candidate {
    pub skill: FoundSkill,
    pub hash: String,
}

/// The first candidate from position `from` on whose hash is `h`.
pub open spec fn first_with_hash(c: Seq<Candidate>, h: Seq<char>, from: int) -> Option<int>
    decreases c.len() - from,
{
    if from < 0 || from >= c.len() {
        None
    } else if c[from].hash@ == h {
        Some(from)
    } else {
        first_with_hash(c, h, from + 1)
    }
}

pub proof fn lemma_first_with_hash(c: Seq<Candidate>, h: Seq<char>, from: int)
    ensures
        first_with_hash(c, h, from) matches Some(i) ==> from <= i < c.len() && c[i].hash@ == h,
    decreases c.len() - from,
{
    if 0 <= from < c.len() && c[from].hash@ != h {
        lemma_first_with_hash(c, h, from + 1);
    }
}

pub proof fn lemma_choose_in_range(name: Seq<char>, pinned: Option<Seq<char>>, root: Seq<char>, c: Seq<Candidate>)
    ensures
        choose_spec(name, pinned, root, c) matches Ok(Some(i)) ==> 0 <= i < c.len() && match pinned {
            Some(p) => c[i].hash@ == p,
            None => true,
        },
{
    if let Some(p) = pinned {
        lemma_first_with_hash(c, p, 0);
    }
}

/// The refusal of a single candidate whose hash differs from the pinned one.
pub open spec fn hash_mismatch_message(name: Seq<char>, pinned: Seq<char>, found: Seq<char>) -> Seq<char> {
    "hash mismatch for skill '"@ + name + "': pinned "@ + pinned + ", found "@ + found
}

/// The refusal of several candidates none of which has the pinned hash.
pub open spec fn no_match_message(name: Seq<char>, pinned: Seq<char>, root: Seq<char>) -> Seq<char> {
    "no package matching '"@ + name + "@"@ + pinned + "' found in library root "@ + root
}

/// What the candidates of one library root give a pin: none means look in
/// the next root; one is taken unless its hash differs from the pinned one;
/// of several, a hash pin takes the first with that hash, and a plain pin is
/// refused as ambiguous.
pub open spec fn choose_spec(
    name: Seq<char>,
    pinned: Option<Seq<char>>,
    root: Seq<char>,
    c: Seq<Candidate>,
) -> Result<Option<int>, Seq<char>> {
    if c.len() == 0 {
        Ok(None)
    } else if c.len() == 1 {
        match pinned {
            Some(p) => if p != c[0].hash@ {
                Err(hash_mismatch_message(name, p, c[0].hash@))
            } else {
                Ok(Some(0))
            },
            None => Ok(Some(0)),
        }
    } else {
        match pinned {
            None => Err(duplicate_name_message(name, root)),
            Some(p) => match first_with_hash(c, p, 0) {
                Some(i) => Ok(Some(i)),
                None => Err(no_match_message(name, p, root)),
            },
        }
    }
}

/// Picks the candidate of one library root for a pin (see `choose_spec`).
pub fn choose_in_root(pin: &Pin, root: &str, candidates: Vec<Candidate>) -> (r: Result<Option<Candidate>, String>)
    ensures
        match choose_spec(pin.name@, pin_view(*pin).1, root@, candidates@) {
            Ok(None) => r is Ok && r->Ok_0 is None,
            Ok(Some(i)) => r is Ok && r->Ok_0 == Some(candidates@[i]),
            Err(m) => r is Err && r->Err_0@ == m,
        },
{
    let n = candidates.len();
    if n == 0 {
        return Ok(None);
    }
    if n == 1 {
        let mut candidates = candidates;
        let c = candidates.remove(0);
        match &pin.pinned_hash {
            Some(p) => {
                if !p.eq(&c.hash) {
                    let mut m: Vec<char> = Vec::new();
                    push_str(&mut m, "hash mismatch for skill '");
                    push_str(&mut m, pin.name.as_str());
                    push_str(&mut m, "': pinned ");
                    push_str(&mut m, p.as_str());
                    push_str(&mut m, ", found ");
                    push_str(&mut m, c.hash.as_str());
                    return Err(string_from_chars(&m));
                }
                return Ok(Some(c));
            },
            None => {
                return Ok(Some(c));
            },
        }
    }
    match &pin.pinned_hash {
        None => {
            let mut m: Vec<char> = Vec::new();
            push_str(&mut m, "two packages with the name '");
            push_str(&mut m, pin.name.as_str());
            push_str(&mut m, "' in library root ");
            push_str(&mut m, root);
            push_str(&mut m, "; pin by hash to disambiguate");
            Err(string_from_chars(&m))
        },
        Some(p) => {
            let ghost all = candidates@;
            let mut rest = candidates;
            let mut i: usize = 0;
            while rest.len() > 0
                invariant
                    all == candidates@,
                    all.len() >= 2,
                    pin.pinned_hash == Some(*p),
                    i + rest@.len() == all.len(),
                    i <= usize::MAX - rest.len(),
                    rest@ == all.skip(i as int),
                    first_with_hash(all, p@, 0) == first_with_hash(all, p@, i as int),
                decreases rest@.len(),
            {
                let c = rest.remove(0);
                assert(c == all[i as int]);
                assert(rest@ =~= all.skip(i + 1));
                if c.hash.eq(p) {
                    return Ok(Some(c));
                }
                i = i + 1;
            }
            let mut m: Vec<char> = Vec::new();
            push_str(&mut m, "no package matching '");
            push_str(&mut m, pin.name.as_str());
            push_str(&mut m, "@");
            push_str(&mut m, p.as_str());
            push_str(&mut m, "' found in library root ");
            push_str(&mut m, root);
            Err(string_from_chars(&m))
        },
    }
}

/// The refusal of a pin that no library root holds, listing the roots searched.
pub open spec fn not_found_message(name: Seq<char>, roots: Seq<Seq<char>>) -> Seq<char> {
    "skill '"@ + name + "' not found in any library root (searched: "@ + join_with(roots, ", "@) + ")"@
}

/// The refusal of a pin that no library root holds.
pub fn not_found_error(name: &str, roots: &Vec<String>) -> (m: String)
    ensures
        m@ == not_found_message(name@, views(roots@)),
{
    let mut v: Vec<char> = Vec::new();
    push_str(&mut v, "skill '");
    push_str(&mut v, name);
    push_str(&mut v, "' not found in any library root (searched: ");
    push_joined(&mut v, roots, ", ");
    push_str(&mut v, ")");
    string_from_chars(&v)
}

/// `s` with each `\n` written as `; `.
pub open spec fn semicolon_lines(s: Seq<char>) -> Seq<char>
    decreases s.len(),
{
    if s.len() == 0 {
        Seq::empty()
    } else {
        semicolon_lines(s.drop_last()) + if s.last() == '\n' {
            seq![';', ' ']
        } else {
            seq![s.last()]
        }
    }
}

/// The excerpt of a failed command's standard error that messages quote:
/// empty for blank output, else `: ` and the output without trailing
/// whitespace or carriage returns, cut to 500 characters, its lines joined by `; `.
pub open spec fn stderr_excerpt_spec(text: Seq<char>) -> Seq<char> {
    let t = trim_end_spec(text);
    if t.len() == 0 {
        Seq::empty()
    } else {
        let kept = t.filter(|c: char| c != '\r');
        let cut = if kept.len() > 500 {
            kept.take(500)
        } else {
            kept
        };
        ": "@ + semicolon_lines(cut)
    }
}

/// The single-line excerpt of a command's standard error (see `stderr_excerpt_spec`).
pub fn stderr_excerpt(text: &str) -> (r: String)
    ensures
        r@ == stderr_excerpt_spec(text@),
{
    let v = chars_of(text);
    let mut end = v.len();
    assert(v@.take(v@.len() as int) =~= v@);
    while end > 0 && is_whitespace(v[end - 1])
        invariant
            0 <= end <= v@.len(),
            trim_end_spec(v@) == trim_end_spec(v@.take(end as int)),
        decreases end,
    {
        assert(v@.take(end as int).drop_last() =~= v@.take(end - 1));
        end = end - 1;
    }
    assert(v@.take(v@.len() as int) =~= v@);
    assert(trim_end_spec(v@.take(end as int)) == v@.take(end as int));
    if end == 0 {
        return String::new();
    }
    let ghost t = v@.take(end as int);
    let ghost pred = |c: char| c != '\r';
    let mut kept: Vec<char> = Vec::new();
    let mut i: usize = 0;
    while i < end
        invariant
            0 <= i <= end <= v@.len(),
            t == v@.take(end as int),
            pred == (|c: char| c != '\r'),
            kept@ == t.take(i as int).filter(pred),
        decreases end - i,
    {
        proof {
            reveal_with_fuel(Seq::<_>::filter, 1);
            assert(t.take(i + 1).drop_last() =~= t.take(i as int));
            assert(t.take(i + 1).last() == v@[i as int]);
        }
        if v[i] != '\r' {
            kept.push(v[i]);
        }
        i = i + 1;
    }
    assert(t.take(end as int) =~= t);
    let cut_len = if kept.len() > 500 { 500 } else { kept.len() };
    let ghost cut = kept@.take(cut_len as int);
    assert(cut == if kept@.len() > 500 { kept@.take(500) } else { kept@ });
    let mut out: Vec<char> = Vec::new();
    push_str(&mut out, ": ");
    let ghost prefix = out@;
    let mut j: usize = 0;
    while j < cut_len
        invariant
            0 <= j <= cut_len <= kept@.len(),
            cut == kept@.take(cut_len as int),
            out@ == prefix + semicolon_lines(cut.take(j as int)),
        decreases cut_len - j,
    {
        assert(cut.take(j + 1).drop_last() =~= cut.take(j as int));
        assert(cut.take(j + 1).last() == kept@[j as int]);
        if kept[j] == '\n' {
            out.push(';');
            out.push(' ');
            assert(out@ =~= prefix + semicolon_lines(cut.take(j + 1)));
        } else {
            out.push(kept[j]);
            assert(out@ =~= prefix + semicolon_lines(cut.take(j + 1)));
        }
        j = j + 1;
    }
    assert(cut.take(cut_len as int) =~= cut);
    string_from_chars(&out)
}

/// The policy verdict on a skill name: a denied name is refused; when the
/// allow list is not empty, a name missing from it is refused.
pub open spec fn gate_spec(name: Seq<char>, deny: Seq<Seq<char>>, allow: Seq<Seq<char>>) -> Result<(), Seq<char>> {
    if deny.contains(name) {
        Err("skill '"@ + name + "' is denied by policy"@)
    } else if allow.len() > 0 && !allow.contains(name) {
        Err("skill '"@ + name + "' is not on the allow list (allow = ["@ + join_with(allow, ", "@) + "])"@)
    } else {
        Ok(())
    }
}

/// The policy admits a name exactly when the deny list does not hold it and
/// the allow list is empty or holds it; each list refuses on its own,
/// whatever the other holds.
pub proof fn gate_law(name: Seq<char>, deny: Seq<Seq<char>>, allow: Seq<Seq<char>>)
    ensures
        deny.contains(name) ==> gate_spec(name, deny, allow) is Err,
        allow.len() > 0 && !allow.contains(name) ==> gate_spec(name, deny, allow) is Err,
        !deny.contains(name) && (allow.len() == 0 || allow.contains(name)) ==> gate_spec(name, deny, allow) is Ok,
{
}

/// Applies the allow and deny lists to a skill name (see `gate_spec`).
pub fn gate(name: &String, deny: &Vec<String>, allow: &Vec<String>) -> (r: Result<(), String>)
    ensures
        match r {
            Ok(()) => gate_spec(name@, views(deny@), views(allow@)) is Ok,
            Err(m) => gate_spec(name@, views(deny@), views(allow@)) == Err::<(), Seq<char>>(m@),
        },
        views(deny@).contains(name@) ==> r is Err,
        allow@.len() > 0 && !views(allow@).contains(name@) ==> r is Err,
        !views(deny@).contains(name@) && (allow@.len() == 0 || views(allow@).contains(name@)) ==> r is Ok,
{
    if contains_string(deny, name) {
        let mut m: Vec<char> = Vec::new();
        push_str(&mut m, "skill '");
        push_str(&mut m, name.as_str());
        push_str(&mut m, "' is denied by policy");
        return Err(string_from_chars(&m));
    }
    if allow.len() > 0 && !contains_string(allow, name) {
        let mut m: Vec<char> = Vec::new();
        push_str(&mut m, "skill '");
        push_str(&mut m, name.as_str());
        push_str(&mut m, "' is not on the allow list (allow = [");
        push_joined(&mut m, allow, ", ");
        push_str(&mut m, "])");
        return Err(string_from_chars(&m));
    }
    Ok(())
}

/// How a scan command ended: successfully or not, its exit code when it
/// exited rather than being killed, and its standard error as text.
#[derive(Debug, Clone, PartialEq)]
pub struct ScanExit {
    pub success: bool,
    pub code: Option<i32>,
    pub stderr: String,
}

/// The scan label of a skill: `pass` when the scan succeeded, `overridden`
/// when it failed under `--override-scan`, else a refusal naming the skill,
/// the command and the exit code (or `signal`) with the standard error excerpt.
pub open spec fn scan_verdict_spec(name: Seq<char>, command: Seq<char>, exit: ScanExit, override_scan: bool) -> Result<Seq<char>, Seq<char>> {
    if exit.success {
        Ok("pass"@)
    } else if override_scan {
        Ok("overridden"@)
    } else {
        Err("skill '"@ + name + "' failed scan_command '"@ + command + "' (exit "@ + match exit.code {
            Some(c) => signed_decimal(c as int),
            None => "signal"@,
        } + ")"@ + stderr_excerpt_spec(exit.stderr@))
    }
}

/// The scan label, or the refusal, of a scanned skill (see `scan_verdict_spec`).
pub fn scan_verdict(name: &str, command: &str, exit: &ScanExit, override_scan: bool) -> (r: Result<String, String>)
    ensures
        match r {
            Ok(label) => scan_verdict_spec(name@, command@, *exit, override_scan) == Ok::<_, Seq<char>>(label@),
            Err(m) => scan_verdict_spec(name@, command@, *exit, override_scan) == Err::<Seq<char>, _>(m@),
        },
{
    if exit.success {
        return Ok(to_string("pass"));
    }
    if override_scan {
        return Ok(to_string("overridden"));
    }
    let mut m: Vec<char> = Vec::new();
    push_str(&mut m, "skill '");
    push_str(&mut m, name);
    push_str(&mut m, "' failed scan_command '");
    push_str(&mut m, command);
    push_str(&mut m, "' (exit ");
    match exit.code {
        Some(c) => push_signed(&mut m, c),
        None => push_str(&mut m, "signal"),
    }
    push_str(&mut m, ")");
    let excerpt = stderr_excerpt(exit.stderr.as_str());
    push_str(&mut m, excerpt.as_str());
    Err(string_from_chars(&m))
}

/// The warning printed when a failed scan is overridden.
pub fn scan_override_warning(name: &str, command: &str) -> (m: String)
    ensures
        m@ == "warning: skill '"@ + name@ + "' failed scan_command '"@ + command@ + "' (overridden by --override-scan)"@,
{
    let mut v: Vec<char> = Vec::new();
    push_str(&mut v, "warning: skill '");
    push_str(&mut v, name);
    push_str(&mut v, "' failed scan_command '");
    push_str(&mut v, command);
    push_str(&mut v, "' (overridden by --override-scan)");
    string_from_chars(&v)
}

/// The refusal when a scan command cannot be started.
pub fn scan_spawn_error(command: &str) -> (m: String)
    ensures
        m@ == "failed to run scan_command '"@ + command@ + "'"@,
{
    let mut v: Vec<char> = Vec::new();
    push_str(&mut v, "failed to run scan_command '");
    push_str(&mut v, command);
    push_str(&mut v, "'");
    string_from_chars(&v)
}

/// The tokens of the locked skills that a pack names (names without a locked
/// skill count nothing; each listed name counts once per listing).
pub open spec fn pack_tokens(pack: Seq<Seq<char>>, locked: Seq<Locked>) -> nat
    decreases pack.len(),
{
    if pack.len() == 0 {
        0
    } else {
        pack_tokens(pack.drop_last(), locked) + match first_locked(locked, pack.last(), 0) {
            Some(i) => locked[i].description_tokens as nat,
            None => 0,
        }
    }
}

/// The first locked skill from position `from` on named `name`.
pub open spec fn first_locked(locked: Seq<Locked>, name: Seq<char>, from: int) -> Option<int>
    decreases locked.len() - from,
{
    if from < 0 || from >= locked.len() {
        None
    } else if locked[from].name@ == name {
        Some(from)
    } else {
        first_locked(locked, name, from + 1)
    }
}

pub proof fn lemma_first_locked(locked: Seq<Locked>, name: Seq<char>, from: int)
    requires
        0 <= from,
    ensures
        first_locked(locked, name, from) is None ==> forall|i: int| from <= i < locked.len() ==> #[trigger] locked[i].name@ != name,
    decreases locked.len() - from,
{
    if from < locked.len() && locked[from].name@ != name {
        lemma_first_locked(locked, name, from + 1);
    }
}

/// The first locked skill named `name`.
pub fn find_locked(locked: &[Locked], name: &String) -> (r: Option<usize>)
    ensures
        match r {
            Some(i) => first_locked(locked@, name@, 0) == Some(i as int) && i < locked@.len()
                && locked@[i as int].name@ == name@,
            None => first_locked(locked@, name@, 0) is None && forall|i: int| 0 <= i < locked@.len() ==> #[trigger] locked@[i].name@ != name@,
        },
{
    proof {
        lemma_first_locked(locked@, name@, 0);
    }
    let mut i: usize = 0;
    while i < locked.len()
        invariant
            0 <= i <= locked@.len(),
            first_locked(locked@, name@, 0) == first_locked(locked@, name@, i as int),
        decreases locked@.len() - i,
    {
        if locked[i].name.eq(name) {
            return Some(i);
        }
        i = i + 1;
    }
    None
}

/// The tokens of a worker's pack.
pub fn worker_tokens(pack: &[String], locked: &[Locked]) -> (t: u128)
    ensures
        t == pack_tokens(views(pack@), locked@),
{
    let ghost names = views(pack@);
    let mut total: u128 = 0;
    let mut i: usize = 0;
    while i < pack.len()
        invariant
            0 <= i <= pack@.len(),
            names == views(pack@),
            total == pack_tokens(names.take(i as int), locked@),
            total <= i * 0xFFFF_FFFF_FFFF_FFFFu128,
        decreases pack@.len() - i,
    {
        let found = find_locked(locked, &pack[i]);
        proof {
            assert(names.take(i + 1).drop_last() =~= names.take(i as int));
            assert(names.take(i + 1).last() == pack@[i as int]@);
        }
        match found {
            Some(k) => {
                assert(total + locked@[k as int].description_tokens <= (i + 1) * 0xFFFF_FFFF_FFFF_FFFFu128) by (nonlinear_arith)
                    requires
                        total <= i * 0xFFFF_FFFF_FFFF_FFFFu128,
                        locked@[k as int].description_tokens <= 0xFFFF_FFFF_FFFF_FFFFu64,
                ;
                assert((i + 1) * 0xFFFF_FFFF_FFFF_FFFFu128 <= u128::MAX) by (nonlinear_arith)
                    requires
                        i < usize::MAX,
                        usize::MAX <= u64::MAX,
                ;
                total = total + locked[k].description_tokens as u128;
            },
            None => {
                assert(total <= (i + 1) * 0xFFFF_FFFF_FFFF_FFFFu128) by (nonlinear_arith)
                    requires
                        total <= i * 0xFFFF_FFFF_FFFF_FFFFu128,
                ;
            },
        }
        i = i + 1;
    }
    assert(names.take(i as int) =~= names);
    total
}

/// The budget message of a worker over `max_menu_tokens`.
pub open spec fn budget_message(worker: Seq<char>, tokens: nat, max: nat, fail: bool) -> Seq<char> {
    "worker '"@ + worker + "': menu_tokens "@ + decimal(tokens) + " exceeds max_menu_tokens "@ + decimal(max)
        + if fail {
        " (fail_on_budget = true)"@
    } else {
        " (fail_on_budget = false)"@
    }
}

/// The budget check over the workers from position `i` on: with
/// `fail_on_budget`, the first worker over budget is refused; without it,
/// every worker over budget gets a warning, in worker order.
pub open spec fn budget_spec(workers: Seq<Worker>, locked: Seq<Locked>, max: nat, fail: bool, i: int) -> Result<Seq<Seq<char>>, Seq<char>>
    decreases workers.len() - i,
{
    if i < 0 || i >= workers.len() {
        Ok(Seq::empty())
    } else {
        let tokens = pack_tokens(views(workers[i].pack@), locked);
        if tokens > max {
            if fail {
                Err(budget_message(workers[i].name@, tokens, max, true))
            } else {
                match budget_spec(workers, locked, max, fail, i + 1) {
                    Ok(rest) => Ok(seq![budget_message(workers[i].name@, tokens, max, false)] + rest),
                    Err(m) => Err(m),
                }
            }
        } else {
            budget_spec(workers, locked, max, fail, i + 1)
        }
    }
}

fn budget_line(worker: &str, tokens: u128, max: u64, fail: bool) -> (m: String)
    ensures
        m@ == budget_message(worker@, tokens as nat, max as nat, fail),
{
    let mut v: Vec<char> = Vec::new();
    push_str(&mut v, "worker '");
    push_str(&mut v, worker);
    push_str(&mut v, "': menu_tokens ");
    push_decimal(&mut v, tokens);
    push_str(&mut v, " exceeds max_menu_tokens ");
    push_decimal(&mut v, max as u128);
    if fail {
        push_str(&mut v, " (fail_on_budget = true)");
    } else {
        push_str(&mut v, " (fail_on_budget = false)");
    }
    string_from_chars(&v)
}

/// Checks each worker's own pack, not the union of the packs, against
/// `max_menu_tokens` (see `budget_spec`); the warnings are returned for the
/// caller to print.
pub fn enforce_worker_budget(
    workers: &[Worker],
    locked: &[Locked],
    max_menu_tokens: u64,
    fail_on_budget: bool,
) -> (r: Result<Vec<String>, String>)
    ensures
        match budget_spec(workers@, locked@, max_menu_tokens as nat, fail_on_budget, 0) {
            Ok(warnings) => r is Ok && views(r->Ok_0@) == warnings,
            Err(m) => r is Err && r->Err_0@ == m,
        },
{
    let mut warnings: Vec<String> = Vec::new();
    let mut i: usize = 0;
    while i < workers.len()
        invariant
            0 <= i <= workers@.len(),
            budget_spec(workers@, locked@, max_menu_tokens as nat, fail_on_budget, 0) == match budget_spec(workers@, locked@, max_menu_tokens as nat, fail_on_budget, i as int) {
                Ok(rest) => Ok(views(warnings@) + rest),
                Err(m) => Err(m),
            },
        decreases workers@.len() - i,
    {
        let tokens = worker_tokens(&workers[i].pack, locked);
        if tokens > max_menu_tokens as u128 {
            if fail_on_budget {
                return Err(budget_line(workers[i].name.as_str(), tokens, max_menu_tokens, true));
            }
            let line = budget_line(workers[i].name.as_str(), tokens, max_menu_tokens, false);
            let ghost before = views(warnings@);
            warnings.push(line);
            proof {
                assert(views(warnings@) =~= before.push(line@));
                let rest = budget_spec(workers@, locked@, max_menu_tokens as nat, fail_on_budget, i + 1);
                if rest is Ok {
                    assert(before + (seq![line@] + rest->Ok_0) =~= before.push(line@) + rest->Ok_0);
                }
            }
        }
        i = i + 1;
    }
    assert(views(warnings@) + Seq::<Seq<char>>::empty() =~= views(warnings@));
    Ok(warnings)
}


/// Whether every candidate carries the name `name`.
pub fn all_named(c: &Vec<Candidate>, name: &String) -> (b: bool)
    ensures
        b == forall|i: int| 0 <= i < c@.len() ==> #[trigger] c@[i].skill.name@ == name@,
{
    let mut i: usize = 0;
    while i < c.len()
        invariant
            0 <= i <= c@.len(),
            forall|j: int| 0 <= j < i ==> #[trigger] c@[j].skill.name@ == name@,
        decreases c@.len() - i,
    {
        if !c[i].skill.name.eq(name) {
            return false;
        }
        i = i + 1;
    }
    true
}

/// What resolution asks of its caller next, or how it ended.
#[derive(Debug)]
pub enum ResolveAction {
    /// List the valid packages named `name` in the library root `root`, hash
    /// each, and answer `Listed` (or `ListFailed`).
    Find { root: String, name: String },
    /// Run `command` on the package at `source` and answer `Scanned` (or
    /// `ScanNotRun` when it cannot be started).
    Scan { command: String, source: String },
    /// Print this warning and answer `Continue`.
    Warn(String),
    /// Every pin resolved to these locked skills.
    Done(Vec<Locked>),
    /// Resolution is refused with this message.
    Fail(String),
}

/// The caller's answer to the last action.
#[derive(Debug)]
pub enum ResolveEvent {
    Continue,
    Listed(Vec<Candidate>),
    ListFailed(String),
    Scanned(ScanExit),
    ScanNotRun,
}

/// Resolution in progress: the pins, where to search, the policy, and what
/// has been locked so far.
pub struct Resolver {
    pub pins: Vec<String>,
    pub roots: Vec<String>,
    pub deny: Vec<String>,
    pub allow: Vec<String>,
    pub scan_command: String,
    pub override_scan: bool,
    pub next_pin: usize,
    pub pin: Option<Pin>,
    pub root: usize,
    pub pending: Option<Candidate>,
    pub pending_tokens: u64,
    pub locked: Vec<Locked>,
}

/// A locked skill that the policy admits and whose scan label fits the
/// configuration: `none` without a scan command, else `pass`, or
/// `overridden` under `--override-scan`.
pub open spec fn admitted(l: Locked, deny: Seq<Seq<char>>, allow: Seq<Seq<char>>, scan_command: Seq<char>, override_scan: bool) -> bool {
    &&& gate_spec(l.name@, deny, allow) is Ok
    &&& scan_command.len() == 0 ==> l.scan@ == "none"@
    &&& scan_command.len() > 0 ==> (l.scan@ == "pass"@ || (override_scan && l.scan@ == "overridden"@))
}

/// The pin `p` is covered by `locked`: it parses, a locked skill carries its
/// name, and a hash pin's hash is that skill's.
pub open spec fn covered(p: Seq<char>, locked: Seq<Locked>) -> bool {
    &&& parse_pin_spec(p) is Ok
    &&& exists|j: int| 0 <= j < locked.len() && #[trigger] locked[j].name@ == parse_pin_spec(p)->Ok_0.0
        && match parse_pin_spec(p)->Ok_0.1 {
        Some(h) => locked[j].hash@ == h,
        None => true,
    }
}

/// With a pin in hand at root `root`: look for it there, or, past the last
/// root, refuse it as not found in any root.
pub open spec fn seeks(roots: Seq<String>, root: int, name: Seq<char>, action: ResolveAction) -> bool {
    if root < roots.len() {
        action matches ResolveAction::Find { root: r, name: n } && r@ == roots[root]@ && n@ == name
    } else {
        action matches ResolveAction::Fail(m) && m@ == not_found_message(name, views(roots))
    }
}

/// Moving on from state (`pin`, `next_pin`, `root`) with `locked` skills: with
/// a pin in hand, look for it from `root` on; else take the next pin (its
/// first root), refuse a pin that does not parse, or end with every skill
/// locked. `f` is the resolver afterwards.
pub open spec fn advance_spec(o: Resolver, locked: Seq<Locked>, pin: Option<Pin>, next_pin: int, root: int, f: Resolver, action: ResolveAction) -> bool {
    &&& f.locked@ == locked
    &&& match pin {
        Some(p) => f.pin == Some(p) && f.root == root && f.next_pin == next_pin && seeks(o.roots@, root, p.name@, action),
        None => if next_pin >= o.pins@.len() {
            action matches ResolveAction::Done(l) && l@ == locked && f.next_pin == next_pin
        } else {
            match parse_pin_spec(o.pins@[next_pin]@) {
                Err(m) => action matches ResolveAction::Fail(mm) && mm@ == m,
                Ok(pv) => f.pin is Some && pin_view(f.pin->0) == pv && f.root == 0 && f.next_pin == next_pin && seeks(
                    o.roots@,
                    0,
                    pv.0,
                    action,
                ),
            }
        },
    }
}

/// A skill locked from candidate `c` with this scan label and these tokens.
pub open spec fn locked_from(l: Locked, c: Candidate, scan: Seq<char>, tokens: nat) -> bool {
    &&& l.name == c.skill.name
    &&& l.source == c.skill.source
    &&& l.hash == c.hash
    &&& l.scan@ == scan
    &&& l.description_tokens == tokens
}

/// The listing tokens of a candidate: the estimate of its name and description.
pub open spec fn candidate_tokens(c: Candidate) -> nat {
    crate::tokens::estimate_spec(c.skill.name@.len(), c.skill.description@.len())
}

/// The refusal of one skill pinned at two hashes.
pub open spec fn conflict_message(name: Seq<char>, locked_hash: Seq<char>, hash: Seq<char>) -> Seq<char> {
    "skill '"@ + name + "' pinned twice with conflicting hashes ("@ + locked_hash + " vs "@ + hash + ")"@
}

/// Taking candidate `c` for the pin in hand: a skill the policy refuses is
/// refused; a skill already locked must carry the same hash and the pin is
/// done; else, without a scan command, the skill is locked (scan `none`,
/// its estimated tokens) and the pin is done; with one, the scan is asked for.
pub open spec fn take_spec(o: Resolver, f: Resolver, c: Candidate, action: ResolveAction) -> bool {
    match gate_spec(c.skill.name@, views(o.deny@), views(o.allow@)) {
        Err(m) => action matches ResolveAction::Fail(mm) && mm@ == m,
        Ok(_) => match first_locked(o.locked@, c.skill.name@, 0) {
            Some(k) => if o.locked@[k].hash@ != c.hash@ {
                action matches ResolveAction::Fail(mm) && mm@ == conflict_message(c.skill.name@, o.locked@[k].hash@, c.hash@)
            } else {
                advance_spec(o, o.locked@, None, o.next_pin + 1, o.root as int, f, action)
            },
            None => if o.scan_command@.len() == 0 {
                exists|l: Locked|
                    locked_from(l, c, "none"@, candidate_tokens(c)) && #[trigger] advance_spec(
                        o,
                        o.locked@.push(l),
                        None,
                        o.next_pin + 1,
                        o.root as int,
                        f,
                        action,
                    )
            } else {
                &&& f.pending == Some(c)
                &&& f.pending_tokens == candidate_tokens(c)
                &&& f.locked == o.locked
                &&& action matches ResolveAction::Scan { command, source } && command@ == o.scan_command@ && source@
                    == c.skill.source@
            },
        },
    }
}

/// What one step of resolution does with the answer to its last action:
/// `Continue` moves on (see `advance_spec`); a listing that fails, or a scan
/// that cannot run, refuses; the candidates of a root are chosen among (see
/// `choose_spec`): a refusal refuses, none moves on to the next root, and a
/// chosen one is taken (see `take_spec`); a scan verdict refuses, or locks
/// the pending skill with its label and estimated tokens and ends its pin
/// (warning when the scan was overridden).
pub open spec fn step_spec(o: Resolver, f: Resolver, event: ResolveEvent, action: ResolveAction) -> bool {
    match event {
        ResolveEvent::Continue => advance_spec(o, o.locked@, o.pin, o.next_pin as int, o.root as int, f, action),
        ResolveEvent::ListFailed(m) => action matches ResolveAction::Fail(mm) && mm@ == m@,
        ResolveEvent::ScanNotRun => action matches ResolveAction::Fail(mm) && mm@ == "failed to run scan_command '"@
            + o.scan_command@ + "'"@,
        ResolveEvent::Listed(c) => match choose_spec(o.pin->0.name@, pin_view(o.pin->0).1, o.roots@[o.root as int]@, c@) {
            Err(m) => action matches ResolveAction::Fail(mm) && mm@ == m,
            Ok(None) => advance_spec(o, o.locked@, o.pin, o.next_pin as int, o.root + 1, f, action),
            Ok(Some(i)) => take_spec(o, f, c@[i], action),
        },
        ResolveEvent::Scanned(exit) => match scan_verdict_spec(o.pending->0.skill.name@, o.scan_command@, exit, o.override_scan) {
            Err(m) => action matches ResolveAction::Fail(mm) && mm@ == m,
            Ok(label) => exists|l: Locked|
                {
                    &&& locked_from(l, o.pending->0, label, candidate_tokens(o.pending->0))
                    &&& f.pending is None
                    &&& #[trigger] f.locked@ == o.locked@.push(l)
                    &&& if label == "overridden"@ {
                        action is Warn && f.pin is None && f.next_pin == o.next_pin + 1
                    } else {
                        advance_spec(o, o.locked@.push(l), None, o.next_pin + 1, o.root as int, f, action)
                    }
                },
        },
    }
}

impl Resolver {
    /// The locked skills so far are admitted, carry distinct names, and cover
    /// every pin before `next_pin`; the pin in hand is the next one.
    pub open spec fn wf(&self) -> bool {
        let deny = views(self.deny@);
        let allow = views(self.allow@);
        &&& self.next_pin <= self.pins@.len()
        &&& forall|i: int| 0 <= i < self.locked@.len() ==> admitted(#[trigger] self.locked@[i], deny, allow, self.scan_command@, self.override_scan)
        &&& forall|i: int, j: int| 0 <= i < j < self.locked@.len() ==> #[trigger] self.locked@[i].name@ != #[trigger] self.locked@[j].name@
        &&& forall|k: int| 0 <= k < self.next_pin ==> covered(#[trigger] self.pins@[k]@, self.locked@)
        &&& self.pin is Some ==> self.next_pin < self.pins@.len() && parse_pin_spec(self.pins@[self.next_pin as int]@) == Ok::<_, Seq<char>>(pin_view(self.pin->0))
        &&& self.pending is Some ==> self.pending_tokens == candidate_tokens(self.pending->0)
        &&& self.pending is Some ==> self.pin is Some && self.pending->0.skill.name@ == self.pin->0.name@
            && gate_spec(self.pending->0.skill.name@, deny, allow) is Ok
            && self.scan_command@.len() > 0
            && (forall|i: int| 0 <= i < self.locked@.len() ==> #[trigger] self.locked@[i].name@ != self.pending->0.skill.name@)
            && match pin_view(self.pin->0).1 {
            Some(h) => self.pending->0.hash@ == h,
            None => true,
        }
    }

    /// Every skill a well-formed resolution has locked passes the policy:
    /// its name is not denied, and it is on the allow list whenever that list
    /// is not empty, whatever the deny list holds.
    pub proof fn locked_skills_obey_policy(&self, i: int)
        requires
            self.wf(),
            0 <= i < self.locked@.len(),
        ensures
            !views(self.deny@).contains(self.locked@[i].name@),
            self.allow@.len() > 0 ==> views(self.allow@).contains(self.locked@[i].name@),
    {
        assert(admitted(self.locked@[i], views(self.deny@), views(self.allow@), self.scan_command@, self.override_scan));
        gate_law(self.locked@[i].name@, views(self.deny@), views(self.allow@));
    }

    /// The answers that the last action asked for.
    pub open spec fn expects(&self, event: ResolveEvent) -> bool {
        match event {
            ResolveEvent::Continue => self.pin is None && self.pending is None,
            ResolveEvent::Listed(c) => self.pin is Some && self.pending is None && self.root < self.roots@.len()
                && forall|i: int| 0 <= i < c@.len() ==> #[trigger] c@[i].skill.name@ == self.pin->0.name@,
            ResolveEvent::ListFailed(_) => self.pin is Some && self.pending is None,
            ResolveEvent::Scanned(_) => self.pending is Some,
            ResolveEvent::ScanNotRun => self.pending is Some,
        }
    }

    /// Whether `event` answers the last action.
    pub fn accepts(&self, event: &ResolveEvent) -> (b: bool)
        ensures
            b == self.expects(*event),
    {
        match event {
            ResolveEvent::Continue => self.pin.is_none() && self.pending.is_none(),
            ResolveEvent::Listed(c) => match &self.pin {
                Some(p) => self.pending.is_none() && self.root < self.roots.len() && all_named(c, &p.name),
                None => false,
            },
            ResolveEvent::ListFailed(_) => self.pin.is_some() && self.pending.is_none(),
            ResolveEvent::Scanned(_) => self.pending.is_some(),
            ResolveEvent::ScanNotRun => self.pending.is_some(),
        }
    }

    /// Resolution of `pins` against `roots` under the policy of `cfg`; the
    /// first answer is `Continue`.
    pub fn new(pins: Vec<String>, roots: Vec<String>, cfg: &Config, override_scan: bool) -> (r: Resolver)
        ensures
            r.wf(),
            r.pins == pins,
            r.roots == roots,
            r.deny@ == cfg.deny@,
            r.allow@ == cfg.allow@,
            r.scan_command == cfg.scan_command,
            r.override_scan == override_scan,
            r.next_pin == 0,
            r.locked@.len() == 0,
            r.pin is None,
            r.pending is None,
    {
        Resolver {
            pins,
            roots,
            deny: clone_strings(&cfg.deny),
            allow: clone_strings(&cfg.allow),
            scan_command: cfg.scan_command.clone(),
            override_scan,
            next_pin: 0,
            pin: None,
            root: 0,
            pending: None,
            pending_tokens: 0,
            locked: Vec::new(),
        }
    }

    /// The settings that resolution never changes.
    pub open spec fn same_setup(&self, other: &Resolver) -> bool {
        &&& self.pins == other.pins
        &&& self.roots == other.roots
        &&& self.deny == other.deny
        &&& self.allow == other.allow
        &&& self.scan_command == other.scan_command
        &&& self.override_scan == other.override_scan
    }

    proof fn lemma_cover_kept(&self, l: Seq<Locked>)
        requires
            self.locked@.is_prefix_of(l),
            forall|k: int| 0 <= k < self.next_pin ==> covered(#[trigger] self.pins@[k]@, self.locked@),
        ensures
            forall|k: int| 0 <= k < self.next_pin ==> covered(#[trigger] self.pins@[k]@, l),
    {
        assert forall|k: int| 0 <= k < self.next_pin implies covered(#[trigger] self.pins@[k]@, l) by {
            let p = self.pins@[k]@;
            assert(covered(p, self.locked@));
            let j = choose|j: int| 0 <= j < self.locked@.len() && #[trigger] self.locked@[j].name@ == parse_pin_spec(p)->Ok_0.0
                && match parse_pin_spec(p)->Ok_0.1 {
                Some(h) => self.locked@[j].hash@ == h,
                None => true,
            };
            assert(l[j] == self.locked@[j]);
        }
    }

    /// Moves on to the next pin, or ends resolution.
    fn advance(&mut self) -> (action: ResolveAction)
        requires
            old(self).wf(),
            old(self).pending is None,
        ensures
            final(self).wf(),
            final(self).same_setup(old(self)),
            final(self).pending is None,
            final(self).locked == old(self).locked,
            match action {
                ResolveAction::Find { root, name } => final(self).pin is Some && final(self).root < final(self).roots@.len()
                    && root@ == final(self).roots@[final(self).root as int]@ && name@ == final(self).pin->0.name@,
                ResolveAction::Done(l) => l@ == final(self).locked@ && final(self).next_pin == final(self).pins@.len(),
                ResolveAction::Fail(_) => true,
                _ => false,
            },
            advance_spec(*old(self), old(self).locked@, old(self).pin, old(self).next_pin as int, old(self).root as int, *final(self), action),
    {
        if self.pin.is_none() {
            if self.next_pin == self.pins.len() {
                return ResolveAction::Done(copy_locked(&self.locked));
            }
            match parse_pin(self.pins[self.next_pin].as_str()) {
                Err(m) => return ResolveAction::Fail(m),
                Ok(p) => {
                    self.pin = Some(p);
                    self.root = 0;
                },
            }
        }
        let name = match &self.pin {
            Some(p) => p.name.clone(),
            None => String::new(),
        };
        if self.root < self.roots.len() {
            ResolveAction::Find { root: self.roots[self.root].clone(), name }
        } else {
            ResolveAction::Fail(not_found_error(name.as_str(), &self.roots))
        }
    }

    /// Ends the pin in hand, which the locked skills now cover.
    fn finish_pin(&mut self)
        requires
            old(self).pin is Some,
            old(self).next_pin < old(self).pins@.len(),
            covered(old(self).pins@[old(self).next_pin as int]@, old(self).locked@),
            forall|k: int| 0 <= k < old(self).next_pin ==> covered(#[trigger] old(self).pins@[k]@, old(self).locked@),
        ensures
            final(self).pin is None,
            final(self).next_pin == old(self).next_pin + 1,
            final(self).pins == old(self).pins,
            final(self).roots == old(self).roots,
            final(self).deny == old(self).deny,
            final(self).allow == old(self).allow,
            final(self).scan_command == old(self).scan_command,
            final(self).override_scan == old(self).override_scan,
            final(self).locked == old(self).locked,
            final(self).pending == old(self).pending,
            forall|k: int| 0 <= k < final(self).next_pin ==> covered(#[trigger] final(self).pins@[k]@, final(self).locked@),
    {
        let n = self.pins.len();
        assert(self.next_pin < n);
        self.pin = None;
        self.next_pin = self.next_pin + 1;
    }

    /// Takes the package chosen for the pin in hand, through the policy and
    /// the scan.
    fn take_package(&mut self, c: Candidate) -> (action: ResolveAction)
        requires
            old(self).wf(),
            old(self).pin is Some,
            old(self).pending is None,
            c.skill.name@ == old(self).pin->0.name@,
            match pin_view(old(self).pin->0).1 {
                Some(h) => c.hash@ == h,
                None => true,
            },
        ensures
            final(self).wf(),
            final(self).same_setup(old(self)),
            match action {
                ResolveAction::Find { root, name } => final(self).pin is Some && final(self).pending is None
                    && final(self).root < final(self).roots@.len()
                    && root@ == final(self).roots@[final(self).root as int]@ && name@ == final(self).pin->0.name@,
                ResolveAction::Scan { command, source } => final(self).pending is Some && command@ == final(self).scan_command@
                    && source@ == final(self).pending->0.skill.source@,
                ResolveAction::Done(l) => l@ == final(self).locked@ && final(self).next_pin == final(self).pins@.len(),
                ResolveAction::Fail(_) => true,
                _ => false,
            },
            final(self).pending is None ==> !(action is Scan),
            take_spec(*old(self), *final(self), c, action),
    {
        let gated = gate(&c.skill.name, &self.deny, &self.allow);
        if let Err(m) = gated {
            return ResolveAction::Fail(m);
        }
        let tokens = estimate(c.skill.name.as_str(), c.skill.description.as_str());
        match find_locked(&self.locked, &c.skill.name) {
            Some(k) => {
                if !self.locked[k].hash.eq(&c.hash) {
                    let mut m: Vec<char> = Vec::new();
                    push_str(&mut m, "skill '");
                    push_str(&mut m, c.skill.name.as_str());
                    push_str(&mut m, "' pinned twice with conflicting hashes (");
                    push_str(&mut m, self.locked[k].hash.as_str());
                    push_str(&mut m, " vs ");
                    push_str(&mut m, c.hash.as_str());
                    push_str(&mut m, ")");
                    return ResolveAction::Fail(string_from_chars(&m));
                }
                proof {
                    let p = self.pins@[self.next_pin as int]@;
                    assert(self.locked@[k as int].name@ == parse_pin_spec(p)->Ok_0.0);
                }
                self.finish_pin();
                return self.advance();
            },
            None => {},
        }
        if self.scan_command.as_str().is_empty() {
            let ghost before = self.locked@;
            let l = Locked {
                name: c.skill.name,
                source: c.skill.source,
                hash: c.hash,
                scan: to_string("none"),
                description_tokens: tokens,
            };
            self.locked.push(l);
            proof {
                reveal_strlit("none");
                let p = self.pins@[self.next_pin as int]@;
                assert(self.locked@[before.len() as int].name@ == parse_pin_spec(p)->Ok_0.0);
                assert(before.is_prefix_of(self.locked@));
                self.lemma_cover_kept(self.locked@);
            }
            let ghost lw = self.locked@[before.len() as int];
            let ghost o = *old(self);
            self.finish_pin();
            let action = self.advance();
            proof {
                assert(self.locked@ == before.push(lw));
                assert(locked_from(lw, c, "none"@, candidate_tokens(c)));
                assert(advance_spec(o, o.locked@.push(lw), None, o.next_pin + 1, o.root as int, *self, action));
            }
            return action;
        }
        let command = self.scan_command.clone();
        let source = c.skill.source.clone();
        self.pending = Some(c);
        self.pending_tokens = tokens;
        ResolveAction::Scan { command, source }
    }

    /// The next action, given the answer to the last one.
    pub fn step(&mut self, event: ResolveEvent) -> (action: ResolveAction)
        requires
            old(self).wf(),
            old(self).expects(event),
        ensures
            final(self).wf(),
            final(self).same_setup(old(self)),
            match action {
                ResolveAction::Find { root, name } => final(self).pin is Some && final(self).pending is None
                    && final(self).root < final(self).roots@.len()
                    && root@ == final(self).roots@[final(self).root as int]@ && name@ == final(self).pin->0.name@,
                ResolveAction::Scan { command, source } => final(self).pending is Some && command@ == final(self).scan_command@
                    && source@ == final(self).pending->0.skill.source@,
                ResolveAction::Warn(_) => final(self).pin is None && final(self).pending is None,
                ResolveAction::Done(l) => l@ == final(self).locked@ && final(self).next_pin == final(self).pins@.len(),
                ResolveAction::Fail(_) => true,
            },
            match event {
                ResolveEvent::Listed(c) => match choose_spec(old(self).pin->0.name@, pin_view(old(self).pin->0).1, old(self).roots@[old(self).root as int]@, c@) {
                    Err(m) => action is Fail && action->Fail_0@ == m,
                    _ => true,
                },
                ResolveEvent::ListFailed(m) => action is Fail && action->Fail_0@ == m@,
                ResolveEvent::Scanned(exit) => match scan_verdict_spec(old(self).pending->0.skill.name@, old(self).scan_command@, exit, old(self).override_scan) {
                    Err(m) => action is Fail && action->Fail_0@ == m,
                    Ok(label) => exists|i: int| 0 <= i < final(self).locked@.len() && #[trigger] final(self).locked@[i].name@ == old(self).pending->0.skill.name@
                        && final(self).locked@[i].scan@ == label,
                },
                ResolveEvent::ScanNotRun => action is Fail && action->Fail_0@ == "failed to run scan_command '"@ + old(self).scan_command@ + "'"@,
                ResolveEvent::Continue => true,
            },
            step_spec(*old(self), *final(self), event, action),
    {
        match event {
            ResolveEvent::Continue => self.advance(),
            ResolveEvent::ListFailed(m) => ResolveAction::Fail(m),
            ResolveEvent::ScanNotRun => ResolveAction::Fail(scan_spawn_error(self.scan_command.as_str())),
            ResolveEvent::Listed(candidates) => {
                let pin = match &self.pin {
                    Some(p) => p.copy(),
                    None => Pin { name: String::new(), pinned_hash: None },
                };
                let ghost old_pin = self.pin->0;
                assert(pin == old_pin);
                let root = self.roots[self.root].clone();
                let ghost listed = candidates@;
                match choose_in_root(&pin, root.as_str(), candidates) {
                    Err(m) => ResolveAction::Fail(m),
                    Ok(None) => {
                        let n = self.roots.len();
                        assert(self.root < n);
                        self.root = self.root + 1;
                        self.advance()
                    },
                    Ok(Some(c)) => {
                        proof {
                            lemma_choose_in_range(pin.name@, pin_view(pin).1, root@, listed);
                            let i = choose_spec(pin.name@, pin_view(pin).1, root@, listed)->Ok_0->0;
                            assert(c == listed[i]);
                        }
                        self.take_package(c)
                    },
                }
            },
            ResolveEvent::Scanned(exit) => {
                let c = match self.pending.take() {
                    Some(c) => c,
                    None => Candidate { skill: FoundSkill { name: String::new(), description: String::new(), source: String::new() }, hash: String::new() },
                };
                match scan_verdict(c.skill.name.as_str(), self.scan_command.as_str(), &exit, self.override_scan) {
                    Err(m) => ResolveAction::Fail(m),
                    Ok(label) => {
                        let overridden = crate::text::str_eq(label.as_str(), "overridden");
                        let warning = scan_override_warning(c.skill.name.as_str(), self.scan_command.as_str());
                        let ghost before = self.locked@;
                        let l = Locked {
                            name: c.skill.name,
                            source: c.skill.source,
                            hash: c.hash,
                            scan: label,
                            description_tokens: self.pending_tokens,
                        };
                        self.locked.push(l);
                        proof {
                            reveal_strlit("pass");
                            reveal_strlit("overridden");
                            let p = self.pins@[self.next_pin as int]@;
                            assert(self.locked@[before.len() as int].name@ == parse_pin_spec(p)->Ok_0.0);
                            assert(before.is_prefix_of(self.locked@));
                            self.lemma_cover_kept(self.locked@);
                        }
                        self.finish_pin();
                        if overridden {
                            ResolveAction::Warn(warning)
                        } else {
                            self.advance()
                        }
                    },
                }
            },
        }
    }
}

} // verus!
