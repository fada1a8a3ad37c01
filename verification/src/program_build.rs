//! How the zkVM guest programs are built: the mode read from
//! `REPRODUCIBLE_BUILD`, what is done for each target in that mode, and the
//! lines that hand the resulting ELF paths to cargo.
use core::marker::PhantomData;
use vstd::prelude::*;
use vstd::string::*;

verus! {

broadcast use vstd::string::group_string_axioms;

/// Where the ELFs of a build come from.
#[derive(Clone, Copy, Debug, PartialEq, Eq, Structural)]
pub enum BuildMode {
    /// The checked-in ELFs under `<crate>/elf/`.
    Prebuilt,
    /// A reproducible build inside a container.
    Docker,
    /// A fast, non-reproducible local build.
    Local,
}

/// Whitespace in the sense of Unicode's `White_Space` property.
pub open spec fn is_whitespace_spec(c: char) -> bool {
    ||| ('\u{9}' <= c <= '\u{d}')
    ||| c == ' '
    ||| c == '\u{85}'
    ||| c == '\u{a0}'
    ||| c == '\u{1680}'
    ||| ('\u{2000}' <= c <= '\u{200a}')
    ||| c == '\u{2028}'
    ||| c == '\u{2029}'
    ||| c == '\u{202f}'
    ||| c == '\u{205f}'
    ||| c == '\u{3000}'
}

/// The text without its leading whitespace.
pub open spec fn trim_start_spec(s: Seq<char>) -> Seq<char>
    decreases s.len(),
{
    if s.len() > 0 && is_whitespace_spec(s[0]) {
        trim_start_spec(s.drop_first())
    } else {
        s
    }
}

/// The text without its trailing whitespace.
pub open spec fn trim_end_spec(s: Seq<char>) -> Seq<char>
    decreases s.len(),
{
    if s.len() > 0 && is_whitespace_spec(s.last()) {
        trim_end_spec(s.drop_last())
    } else {
        s
    }
}

/// The text without surrounding whitespace, as `str::trim` gives it.
pub open spec fn trim_spec(s: Seq<char>) -> Seq<char> {
    trim_end_spec(trim_start_spec(s))
}

/// A character with ASCII `A`-`Z` mapped to `a`-`z`.
pub open spec fn ascii_lower_char(c: char) -> char {
    if 'A' <= c <= 'Z' {
        ((c as u32) + 32) as char
    } else {
        c
    }
}

/// The text with ASCII letters in lowercase, as `str::to_ascii_lowercase` gives it.
pub open spec fn ascii_lower(s: Seq<char>) -> Seq<char> {
    s.map_values(|c: char| ascii_lower_char(c))
}

/// The build mode that a value of `REPRODUCIBLE_BUILD` selects: unset, empty
/// or `prebuilt` selects the prebuilt ELFs, `docker` a containerized build,
/// and anything else a local build; case and surrounding whitespace do not
/// matter.
pub open spec fn mode_of(raw: Option<Seq<char>>) -> BuildMode {
    match raw {
        None => BuildMode::Prebuilt,
        Some(s) => {
            let v = ascii_lower(trim_spec(s));
            if v.len() == 0 || v == "prebuilt"@ {
                BuildMode::Prebuilt
            } else if v == "docker"@ {
                BuildMode::Docker
            } else {
                BuildMode::Local
            }
        },
    }
}

pub open spec fn opt_str_view(raw: Option<&str>) -> Option<Seq<char>> {
    match raw {
        None => None,
        Some(s) => Some(s@),
    }
}

fn is_whitespace(c: char) -> (b: bool)
    ensures
        b == is_whitespace_spec(c),
{
    ('\u{9}' <= c && c <= '\u{d}') || c == ' ' || c == '\u{85}' || c == '\u{a0}' || c
        == '\u{1680}' || ('\u{2000}' <= c && c <= '\u{200a}') || c == '\u{2028}' || c
        == '\u{2029}' || c == '\u{202f}' || c == '\u{205f}' || c == '\u{3000}'
}

proof fn lemma_trim_start_skip(s: Seq<char>, i: int)
    requires
        0 <= i < s.len(),
        is_whitespace_spec(s[i]),
    ensures
        trim_start_spec(s.subrange(i, s.len() as int)) == trim_start_spec(
            s.subrange(i + 1, s.len() as int),
        ),
{
    assert(s.subrange(i, s.len() as int).drop_first() =~= s.subrange(i + 1, s.len() as int));
}

proof fn lemma_trim_end_drop(s: Seq<char>, j: int)
    requires
        0 < j <= s.len(),
        is_whitespace_spec(s[j - 1]),
    ensures
        trim_end_spec(s.subrange(0, j)) == trim_end_spec(s.subrange(0, j - 1)),
{
    assert(s.subrange(0, j).drop_last() =~= s.subrange(0, j - 1));
}

/// `s` without surrounding whitespace.
fn trim(s: &str) -> (t: &str)
    ensures
        t@ == trim_spec(s@),
{
    let n = s.unicode_len();
    let mut start: usize = 0;
    proof {
        assert(s@.subrange(0, n as int) =~= s@);
    }
    while start < n && is_whitespace(s.get_char(start))
        invariant
            n == s@.len(),
            start <= n,
            trim_start_spec(s@.subrange(start as int, n as int)) == trim_start_spec(s@),
        decreases n - start,
    {
        proof {
            lemma_trim_start_skip(s@, start as int);
        }
        start += 1;
    }
    let ghost rest = s@.subrange(start as int, n as int);
    assert(trim_start_spec(rest) == rest);
    assert(trim_start_spec(s@) == rest);
    let mut end: usize = n;
    proof {
        assert(rest.subrange(0, rest.len() as int) =~= rest);
    }
    while end > start && is_whitespace(s.get_char(end - 1))
        invariant
            n == s@.len(),
            start <= end <= n,
            rest == s@.subrange(start as int, n as int),
            trim_end_spec(rest.subrange(0, end - start)) == trim_end_spec(rest),
        decreases end - start,
    {
        proof {
            lemma_trim_end_drop(rest, end - start);
        }
        end -= 1;
    }
    let t = s.substring_char(start, end);
    proof {
        let kept = rest.subrange(0, end - start);
        assert(kept =~= s@.subrange(start as int, end as int));
        assert(trim_end_spec(kept) == kept);
    }
    t
}

fn ascii_lower_exec(c: char) -> (d: char)
    ensures
        d == ascii_lower_char(c),
{
    if 'A' <= c && c <= 'Z' {
        let b: u8 = c as u8;
        assert(b == c as u32);
        (b + 32) as char
    } else {
        c
    }
}

/// Whether `s`, with its ASCII letters lowered, is the text `lit`.
fn lower_equals(s: &str, lit: &str) -> (b: bool)
    ensures
        b == (ascii_lower(s@) == lit@),
{
    let n = s.unicode_len();
    let m = lit.unicode_len();
    if n != m {
        proof {
            assert(ascii_lower(s@).len() == n);
        }
        return false;
    }
    let mut i: usize = 0;
    while i < n
        invariant
            n == s@.len(),
            m == lit@.len(),
            n == m,
            i <= n,
            forall|k: int| 0 <= k < i ==> ascii_lower_char(s@[k]) == lit@[k],
        decreases n - i,
    {
        if ascii_lower_exec(s.get_char(i)) != lit.get_char(i) {
            proof {
                assert(ascii_lower(s@)[i as int] != lit@[i as int]);
            }
            return false;
        }
        i += 1;
    }
    assert(ascii_lower(s@) =~= lit@);
    true
}

/// Parses a value of `REPRODUCIBLE_BUILD` into a build mode.
/// Comparison is case-insensitive after trimming surrounding whitespace.
pub fn parse_mode(raw: Option<&str>) -> (mode: BuildMode)
    ensures
        mode == mode_of(opt_str_view(raw)),
{
    match raw {
        None => BuildMode::Prebuilt,
        Some(s) => {
            let t = trim(s);
            proof {
                reveal_strlit("");
            }
            if lower_equals(t, "") || lower_equals(t, "prebuilt") {
                proof {
                    reveal_strlit("");
                    assert(""@.len() == 0);
                }
                BuildMode::Prebuilt
            } else if lower_equals(t, "docker") {
                proof {
                    reveal_strlit("docker");
                    assert("docker"@.len() == 6);
                }
                BuildMode::Docker
            } else {
                proof {
                    reveal_strlit("");
                    if ascii_lower(t@).len() == 0 {
                        assert(ascii_lower(t@) =~= ""@);
                    }
                }
                BuildMode::Local
            }
        },
    }
}

proof fn lemma_trim_start_shape(s: Seq<char>)
    ensures
        trim_start_spec(s).len() <= s.len(),
        trim_start_spec(s) =~= s.skip(s.len() - trim_start_spec(s).len()),
        trim_start_spec(s).len() == 0 || !is_whitespace_spec(trim_start_spec(s)[0]),
    decreases s.len(),
{
    if s.len() > 0 && is_whitespace_spec(s[0]) {
        lemma_trim_start_shape(s.drop_first());
        let r = trim_start_spec(s.drop_first());
        assert(s.drop_first().skip(s.drop_first().len() - r.len()) =~= s.skip(s.len() - r.len()));
    }
}

proof fn lemma_trim_end_shape(s: Seq<char>)
    ensures
        trim_end_spec(s).len() <= s.len(),
        trim_end_spec(s) =~= s.take(trim_end_spec(s).len() as int),
        trim_end_spec(s).len() == 0 || !is_whitespace_spec(trim_end_spec(s).last()),
    decreases s.len(),
{
    if s.len() > 0 && is_whitespace_spec(s.last()) {
        lemma_trim_end_shape(s.drop_last());
        let r = trim_end_spec(s.drop_last());
        assert(s.drop_last().take(r.len() as int) =~= s.take(r.len() as int));
    }
}

/// Text that neither starts nor ends with whitespace.
pub open spec fn is_trimmed(t: Seq<char>) -> bool {
    t.len() == 0 || (!is_whitespace_spec(t[0]) && !is_whitespace_spec(t.last()))
}

proof fn lemma_trim_is_trimmed(s: Seq<char>)
    ensures
        is_trimmed(trim_spec(s)),
{
    let u = trim_start_spec(s);
    lemma_trim_start_shape(s);
    lemma_trim_end_shape(u);
    let r = trim_end_spec(u);
    if r.len() > 0 {
        assert(r[0] == u[0]);
    }
}

proof fn lemma_trim_fixes_trimmed(t: Seq<char>)
    requires
        is_trimmed(t),
    ensures
        trim_spec(t) == t,
{
    assert(trim_start_spec(t) == t);
    assert(trim_end_spec(t) == t);
}

proof fn lemma_lower_char_keeps_whitespace(c: char)
    ensures
        is_whitespace_spec(ascii_lower_char(c)) == is_whitespace_spec(c),
        ascii_lower_char(ascii_lower_char(c)) == ascii_lower_char(c),
{
    if 'A' <= c <= 'Z' {
        let d = ((c as u32) + 32) as char;
        assert(97 <= d as u32 <= 122);
    }
}

/// The build mode depends only on the value with surrounding whitespace
/// removed and ASCII letters lowered: the value and that normal form select
/// the same mode.
pub proof fn lemma_mode_of_normal_form(s: Seq<char>)
    ensures
        mode_of(Some(s)) == mode_of(Some(ascii_lower(trim_spec(s)))),
{
    let t = trim_spec(s);
    let v = ascii_lower(t);
    lemma_trim_is_trimmed(s);
    if t.len() > 0 {
        lemma_lower_char_keeps_whitespace(t[0]);
        lemma_lower_char_keeps_whitespace(t.last());
        assert(v[0] == ascii_lower_char(t[0]));
        assert(v.last() == ascii_lower_char(t.last()));
    }
    assert(is_trimmed(v));
    lemma_trim_fixes_trimmed(v);
    assert forall|i: int| 0 <= i < v.len() implies #[trigger] ascii_lower_char(v[i]) == v[i] by {
        lemma_lower_char_keeps_whitespace(t[i]);
    }
    assert(ascii_lower(v) =~= v);
}

/// Text made of whitespace only.
pub open spec fn all_whitespace(w: Seq<char>) -> bool {
    forall|i: int| 0 <= i < w.len() ==> is_whitespace_spec(#[trigger] w[i])
}

proof fn lemma_trim_start_skips_whitespace(w: Seq<char>, x: Seq<char>)
    requires
        all_whitespace(w),
    ensures
        trim_start_spec(w + x) == trim_start_spec(x),
    decreases w.len(),
{
    if w.len() > 0 {
        assert((w + x)[0] == w[0]);
        assert((w + x).drop_first() =~= w.drop_first() + x);
        lemma_trim_start_skips_whitespace(w.drop_first(), x);
    } else {
        assert(w + x =~= x);
    }
}

proof fn lemma_trim_end_skips_whitespace(x: Seq<char>, w: Seq<char>)
    requires
        all_whitespace(w),
    ensures
        trim_end_spec(x + w) == trim_end_spec(x),
    decreases w.len(),
{
    if w.len() > 0 {
        assert((x + w).last() == w.last());
        assert((x + w).drop_last() =~= x + w.drop_last());
        lemma_trim_end_skips_whitespace(x, w.drop_last());
    } else {
        assert(x + w =~= x);
    }
}

proof fn lemma_trim_start_append(x: Seq<char>, y: Seq<char>)
    ensures
        trim_start_spec(x).len() > 0 ==> trim_start_spec(x + y) == trim_start_spec(x) + y,
        trim_start_spec(x).len() == 0 ==> trim_start_spec(x + y) == trim_start_spec(y),
    decreases x.len(),
{
    if x.len() == 0 {
        assert(x + y =~= y);
    } else if is_whitespace_spec(x[0]) {
        assert((x + y)[0] == x[0]);
        assert((x + y).drop_first() =~= x.drop_first() + y);
        lemma_trim_start_append(x.drop_first(), y);
    } else {
        assert((x + y)[0] == x[0]);
    }
}

/// Whitespace around a value does not change the mode it selects.
pub proof fn lemma_mode_of_ignores_surrounding_whitespace(
    before: Seq<char>,
    s: Seq<char>,
    after: Seq<char>,
)
    requires
        all_whitespace(before),
        all_whitespace(after),
    ensures
        mode_of(Some(before + s + after)) == mode_of(Some(s)),
{
    assert(before + s + after =~= before + (s + after));
    lemma_trim_start_skips_whitespace(before, s + after);
    lemma_trim_start_append(s, after);
    let u = trim_start_spec(s);
    if u.len() > 0 {
        lemma_trim_end_skips_whitespace(u, after);
    } else {
        assert(trim_start_spec(after) =~= Seq::<char>::empty()) by {
            lemma_trim_start_skips_whitespace(after, Seq::<char>::empty());
            assert(after + Seq::<char>::empty() =~= after);
        }
    }
    assert(trim_spec(before + s + after) == trim_spec(s));
}

proof fn lemma_trim_start_lower(s: Seq<char>)
    ensures
        trim_start_spec(ascii_lower(s)) == ascii_lower(trim_start_spec(s)),
    decreases s.len(),
{
    if s.len() > 0 {
        lemma_lower_char_keeps_whitespace(s[0]);
        assert(ascii_lower(s)[0] == ascii_lower_char(s[0]));
        if is_whitespace_spec(s[0]) {
            assert(ascii_lower(s).drop_first() =~= ascii_lower(s.drop_first()));
            lemma_trim_start_lower(s.drop_first());
        }
    } else {
        assert(ascii_lower(s) =~= s);
    }
}

proof fn lemma_trim_end_lower(s: Seq<char>)
    ensures
        trim_end_spec(ascii_lower(s)) == ascii_lower(trim_end_spec(s)),
    decreases s.len(),
{
    if s.len() > 0 {
        lemma_lower_char_keeps_whitespace(s.last());
        assert(ascii_lower(s).last() == ascii_lower_char(s.last()));
        if is_whitespace_spec(s.last()) {
            assert(ascii_lower(s).drop_last() =~= ascii_lower(s.drop_last()));
            lemma_trim_end_lower(s.drop_last());
        }
    } else {
        assert(ascii_lower(s) =~= s);
    }
}

/// ASCII case does not change the mode a value selects.
pub proof fn lemma_mode_of_ignores_ascii_case(s: Seq<char>)
    ensures
        mode_of(Some(ascii_lower(s))) == mode_of(Some(s)),
{
    lemma_trim_start_lower(s);
    lemma_trim_end_lower(trim_start_spec(s));
    let t = trim_spec(s);
    assert forall|i: int| 0 <= i < t.len() implies #[trigger] ascii_lower_char(
        ascii_lower(t)[i],
    ) == ascii_lower(t)[i] by {
        lemma_lower_char_keeps_whitespace(t[i]);
    }
    assert(ascii_lower(ascii_lower(t)) =~= ascii_lower(t));
}

/// `std::path::PathBuf`, carried through unread.
#[verifier::external_type_specification]
#[verifier::external_body]
pub struct ExPathBuf(std::path::PathBuf);

/// `std::path::Path`, carried through unread.
#[verifier::external_type_specification]
#[verifier::external_body]
pub struct ExPath(std::path::Path);

/// The per-zkVM side of a program build, implemented by each methods crate's
/// build script.
pub trait ZkVmBackend {
    /// The text of this zkVM's prefix.
    spec fn spec_env_prefix() -> Seq<char>;

    /// Prefix of this zkVM's ELF variables, such as `"SP1"` or `"RISC0"`.
    fn env_prefix() -> (p: &'static str)
        ensures
            p@ == Self::spec_env_prefix(),
    ;

    /// File name of the prebuilt ELF of `target` in `<crate>/elf/`.
    fn prebuilt_file_name(target: &str) -> (name: String)
        default_ensures
            name@ == target@ + ".elf"@,
    {
        let mut name = String::from_str(target);
        name.append(".elf");
        name
    }

    /// Runs the zkVM-specific build of one `target`; `docker` asks for a
    /// containerized build, and `output_dir` is where it must write
    /// `prebuilt_file_name(target)` when given.  Returns the path of the ELF,
    /// or an empty path when the SDK already told cargo where it is.
    fn build_one(
        target: &str,
        ws_root: &std::path::Path,
        docker: bool,
        output_dir: Option<&std::path::Path>,
    ) -> std::path::PathBuf;

    /// The cargo lines that hand each target's ELF to the consumer crate
    /// (`targets` pairs a target with the text of its ELF path): by default
    /// those of [`wire_lines`] with this zkVM's prefix.  Override only if a
    /// backend needs an entirely different wiring.
    fn wire(targets: &[(String, String)]) -> (lines: Vec<String>)
        default_ensures
            lines@.map_values(|l: String| l@) == wire_lines_spec(
                Self::spec_env_prefix(),
                pair_views(targets@),
            ),
            wiring_of(
                Self::spec_env_prefix(),
                pair_views(targets@),
                lines@.map_values(|l: String| l@),
            ),
    {
        wire_lines(Self::env_prefix(), targets)
    }
}

/// What to do for one target.
#[derive(Clone, Debug, PartialEq, Eq)]
pub enum BuildStep {
    /// Use the checked-in ELF of the target, which must exist.
    UsePrebuilt { target: String },
    /// Build the target in a container, writing into `<crate>/elf/`.
    BuildDocker { target: String },
    /// Build the target locally.
    BuildLocal { target: String },
}

pub open spec fn step_target(s: BuildStep) -> Seq<char> {
    match s {
        BuildStep::UsePrebuilt { target } => target@,
        BuildStep::BuildDocker { target } => target@,
        BuildStep::BuildLocal { target } => target@,
    }
}

/// The step that a mode asks for.
pub open spec fn step_fits_mode(s: BuildStep, mode: BuildMode) -> bool {
    match mode {
        BuildMode::Prebuilt => s is UsePrebuilt,
        BuildMode::Docker => s is BuildDocker,
        BuildMode::Local => s is BuildLocal,
    }
}

/// The lines that tell cargo where the ELF of `target` is: its variable and a
/// rerun trigger, or nothing when the path is empty.
pub open spec fn wire_target_lines(prefix: Seq<char>, target: Seq<char>, path: Seq<char>) -> Seq<
    Seq<char>,
> {
    if path.len() == 0 {
        Seq::empty()
    } else {
        seq![
            "cargo:rustc-env="@ + prefix + "_ELF_"@ + target + "="@ + path,
            "cargo:rerun-if-changed="@ + path,
        ]
    }
}

/// The lines for all targets, in order.
pub open spec fn wire_lines_spec(prefix: Seq<char>, targets: Seq<(Seq<char>, Seq<char>)>) -> Seq<
    Seq<char>,
>
    decreases targets.len(),
{
    if targets.len() == 0 {
        Seq::empty()
    } else {
        wire_lines_spec(prefix, targets.drop_last()) + wire_target_lines(
            prefix,
            targets.last().0,
            targets.last().1,
        )
    }
}


/// How many targets have a non-empty path.
pub open spec fn wired_count(ts: Seq<(Seq<char>, Seq<char>)>) -> nat
    decreases ts.len(),
{
    if ts.len() == 0 {
        0
    } else {
        wired_count(ts.drop_last()) + if ts.last().1.len() > 0 {
            1nat
        } else {
            0nat
        }
    }
}

/// The wiring, stated line by line: two lines for each target with a
/// non-empty path and none for the others; target `i`'s lines come after those
/// of the targets before it, its variable line first, then its rerun line.
pub open spec fn wiring_of(
    prefix: Seq<char>,
    ts: Seq<(Seq<char>, Seq<char>)>,
    lines: Seq<Seq<char>>,
) -> bool {
    &&& lines.len() == 2 * wired_count(ts)
    &&& forall|i: int|
        0 <= i < ts.len() && (#[trigger] ts[i]).1.len() > 0 ==> {
            &&& lines[2 * wired_count(ts.take(i)) as int] == "cargo:rustc-env="@ + prefix + "_ELF_"@
                + ts[i].0 + "="@ + ts[i].1
            &&& lines[2 * wired_count(ts.take(i)) + 1int] == "cargo:rerun-if-changed="@ + ts[i].1
        }
}

proof fn lemma_wired_count_step(ts: Seq<(Seq<char>, Seq<char>)>, i: int)
    requires
        0 <= i < ts.len(),
    ensures
        wired_count(ts.take(i + 1)) == wired_count(ts.take(i)) + if ts[i].1.len() > 0 {
            1nat
        } else {
            0nat
        },
{
    assert(ts.take(i + 1).drop_last() =~= ts.take(i));
}

proof fn lemma_wired_count_mono(ts: Seq<(Seq<char>, Seq<char>)>, i: int)
    requires
        0 <= i <= ts.len(),
    ensures
        wired_count(ts.take(i)) <= wired_count(ts),
    decreases ts.len() - i,
{
    if i == ts.len() {
        assert(ts.take(i) =~= ts);
    } else {
        lemma_wired_count_step(ts, i);
        lemma_wired_count_mono(ts, i + 1);
    }
}

/// Every target with a non-empty path is wired, in order, with its variable
/// and rerun lines, and the others get no lines.
pub proof fn lemma_wire_lines_wiring(prefix: Seq<char>, ts: Seq<(Seq<char>, Seq<char>)>)
    ensures
        wiring_of(prefix, ts, wire_lines_spec(prefix, ts)),
    decreases ts.len(),
{
    if ts.len() > 0 {
        let rest = ts.drop_last();
        lemma_wire_lines_wiring(prefix, rest);
        let prev = wire_lines_spec(prefix, rest);
        let lines = wire_lines_spec(prefix, ts);
        let n = ts.len() - 1;
        assert forall|i: int|
            0 <= i < ts.len() && (#[trigger] ts[i]).1.len() > 0 implies {
                &&& lines[2 * wired_count(ts.take(i)) as int] == "cargo:rustc-env="@ + prefix + "_ELF_"@
                    + ts[i].0 + "="@ + ts[i].1
                &&& lines[2 * wired_count(ts.take(i)) + 1int] == "cargo:rerun-if-changed="@ + ts[i].1
            } by {
            if i < n {
                assert(ts.take(i) =~= rest.take(i));
                assert(rest[i] == ts[i]);
                lemma_wired_count_step(rest, i);
                lemma_wired_count_mono(rest, i + 1);
            } else {
                assert(ts.take(i) =~= rest);
            }
        }
    }
}

pub open spec fn pair_views(targets: Seq<(String, String)>) -> Seq<(Seq<char>, Seq<char>)> {
    targets.map_values(|p: (String, String)| (p.0@, p.1@))
}

/// The cargo lines that hand each built ELF to the consumer crate, in order of
/// `targets` (each a target and its ELF path); a target with an empty path
/// gets none, since its SDK already told cargo.
pub fn wire_lines(env_prefix: &str, targets: &[(String, String)]) -> (lines: Vec<String>)
    ensures
        lines@.map_values(|l: String| l@) == wire_lines_spec(env_prefix@, pair_views(targets@)),
        wiring_of(env_prefix@, pair_views(targets@), lines@.map_values(|l: String| l@)),
{
    proof {
        lemma_wire_lines_wiring(env_prefix@, pair_views(targets@));
    }
    let mut lines: Vec<String> = Vec::new();
    let mut i: usize = 0;
    proof {
        assert(pair_views(targets@).take(0) =~= Seq::<(Seq<char>, Seq<char>)>::empty());
        assert(lines@.map_values(|l: String| l@) =~= Seq::<Seq<char>>::empty());
    }
    while i < targets.len()
        invariant
            i <= targets@.len(),
            lines@.map_values(|l: String| l@) == wire_lines_spec(
                env_prefix@,
                pair_views(targets@).take(i as int),
            ),
        decreases targets@.len() - i,
    {
        let ghost before = lines@.map_values(|l: String| l@);
        let target = &targets[i].0;
        let path = &targets[i].1;
        proof {
            let ps = pair_views(targets@);
            assert(ps.take(i + 1).drop_last() =~= ps.take(i as int));
            assert(ps.take(i + 1).last() == (target@, path@));
        }
        if path.unicode_len() > 0 {
            let mut env_line = String::from_str("cargo:rustc-env=");
            env_line.append(env_prefix);
            env_line.append("_ELF_");
            env_line.append(target.as_str());
            env_line.append("=");
            env_line.append(path.as_str());
            let mut rerun_line = String::from_str("cargo:rerun-if-changed=");
            rerun_line.append(path.as_str());
            lines.push(env_line);
            lines.push(rerun_line);
            proof {
                let now = lines@.map_values(|l: String| l@);
                assert(now =~= before + wire_target_lines(env_prefix@, target@, path@));
            }
        } else {
            proof {
                assert(before + wire_target_lines(env_prefix@, target@, path@) =~= before);
            }
        }
        i += 1;
    }
    proof {
        assert(pair_views(targets@).take(i as int) =~= pair_views(targets@));
    }
    lines
}

/// A program build for one zkVM, in the mode chosen when it was made.
pub struct ProgramBuild<B: ZkVmBackend> {
    mode: BuildMode,
    _marker: PhantomData<B>,
}

impl<B: ZkVmBackend> ProgramBuild<B> {
    pub closed spec fn spec_mode(&self) -> BuildMode {
        self.mode
    }

    /// The build in the mode that a value of `REPRODUCIBLE_BUILD` selects.
    pub fn from_env_value(raw: Option<&str>) -> (b: Self)
        ensures
            b.spec_mode() == mode_of(opt_str_view(raw)),
    {
        ProgramBuild { mode: parse_mode(raw), _marker: PhantomData }
    }

    pub fn mode(&self) -> (m: BuildMode)
        ensures
            m == self.spec_mode(),
    {
        self.mode
    }

    /// Whether the ELFs come from a reproducible source: prebuilt or docker.
    pub fn reproducible(&self) -> (r: bool)
        ensures
            r == (self.spec_mode() is Prebuilt || self.spec_mode() is Docker),
    {
        match self.mode {
            BuildMode::Prebuilt | BuildMode::Docker => true,
            BuildMode::Local => false,
        }
    }

    /// One step per target, in order, each the one that the mode asks for.
    pub fn build_steps(&self, targets: &[&str]) -> (steps: Vec<BuildStep>)
        ensures
            steps@.len() == targets@.len(),
            forall|i: int|
                0 <= i < targets@.len() ==> step_target(#[trigger] steps@[i]) == targets@[i]@
                    && step_fits_mode(steps@[i], self.spec_mode()),
    {
        let mut steps: Vec<BuildStep> = Vec::new();
        let mut i: usize = 0;
        while i < targets.len()
            invariant
                i <= targets@.len(),
                steps@.len() == i,
                forall|k: int|
                    0 <= k < i ==> step_target(#[trigger] steps@[k]) == targets@[k]@
                        && step_fits_mode(steps@[k], self.spec_mode()),
            decreases targets@.len() - i,
        {
            let target = String::from_str(targets[i]);
            let step = match self.mode {
                BuildMode::Prebuilt => BuildStep::UsePrebuilt { target },
                BuildMode::Docker => BuildStep::BuildDocker { target },
                BuildMode::Local => BuildStep::BuildLocal { target },
            };
            steps.push(step);
            i += 1;
        }
        steps
    }

    /// The cargo line that tells consumer crates whether the ELFs were built
    /// reproducibly: `1` for prebuilt and docker builds, `0` otherwise.
    pub fn reproducible_env_line(&self) -> (line: String)
        ensures
            line@ == "cargo:rustc-env=ZKVM_REPRODUCIBLE_BUILD="@ + (if self.spec_mode() is Local {
                "0"@
            } else {
                "1"@
            }),
    {
        let mut line = String::from_str("cargo:rustc-env=ZKVM_REPRODUCIBLE_BUILD=");
        if self.reproducible() {
            line.append("1");
        } else {
            line.append("0");
        }
        line
    }
}

} // verus!
