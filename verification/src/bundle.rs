//! Stub `.app` bundles that give each mirror helper a real Dock identity.
//! The coordinator spawns the bundle's inner executable directly; macOS
//! resolves the enclosing bundle and grants Dock label, Cmd-Tab entry,
//! menu-bar name, and minimize-into-own-tile.

use crate::text::{
    chars_of, decimal, decimal_injective, is_white, push_decimal, text_from, trim_end, trim_start,
    trimmed_range,
};
use vstd::prelude::*;
use vstd::string::StringExecFns;

verus! {

/// Where a stub bundle stands, below the mirrors directory.
#[derive(Debug, PartialEq, Eq)]
pub struct StubBundle {
    /// The bundle's directory.
    pub dir: String,
    /// The executable inside it.
    pub exe: String,
}

impl Clone for StubBundle {
    fn clone(&self) -> (copy: StubBundle)
        ensures
            copy == *self,
    {
        StubBundle { dir: self.dir.clone(), exe: self.exe.clone() }
    }
}

/// What stands for a character of a name in a file name.
pub open spec fn file_char(c: char) -> char {
    if c == '/' || c == ':' {
        '-'
    } else {
        c
    }
}

/// The stem that [`dir_stem`] gives.
pub open spec fn stem_of(name: Seq<char>) -> Seq<char> {
    let cleaned = trim_end(trim_start(name.map_values(|c: char| file_char(c))));
    if cleaned.len() == 0 {
        "Mirror"@
    } else {
        cleaned
    }
}

/// Filesystem-safe bundle directory stem (not the Dock label).
pub fn dir_stem(name: &str) -> (r: String)
    ensures
        r@ == stem_of(name@),
{
    let mut chars: Vec<char> = chars_of(name);
    let ghost mapped = name@.map_values(|c: char| file_char(c));
    let mut i: usize = 0;
    while i < chars.len()
        invariant
            i <= chars@.len(),
            chars@.len() == name@.len(),
            forall|j: int| 0 <= j < i ==> #[trigger] chars@[j] == file_char(name@[j]),
            forall|j: int| i <= j < chars@.len() ==> #[trigger] chars@[j] == name@[j],
        decreases chars@.len() - i,
    {
        let c: char = chars[i];
        if c == '/' || c == ':' {
            chars[i] = '-';
        }
        i += 1;
    }
    assert(chars@ =~= mapped);
    let (from, to): (usize, usize) = trimmed_range(&chars);
    if from == to {
        "Mirror".to_owned()
    } else {
        text_from(&chars.as_slice()[from..to])
    }
}

pub open spec fn is_alnum(c: char) -> bool {
    '0' <= c <= '9' || 'A' <= c <= 'Z' || 'a' <= c <= 'z'
}

/// The lower-case form of an ASCII character.
pub open spec fn lower(c: char) -> char {
    if 'A' <= c <= 'Z' {
        ((c as u32 + 32) as u8) as char
    } else {
        c
    }
}

/// The letters and digits of `stem` in lower case, each run of anything else
/// after the first of them made one dash.
pub open spec fn dashed(stem: Seq<char>) -> Seq<char>
    decreases stem.len(),
{
    if stem.len() == 0 {
        Seq::empty()
    } else {
        let before = dashed(stem.drop_last());
        let c = stem.last();
        if is_alnum(c) {
            before.push(lower(c))
        } else if before.len() > 0 && before.last() != '-' {
            before.push('-')
        } else {
            before
        }
    }
}

/// The segment that [`bundle_slug`] gives.
pub open spec fn slug_of(stem: Seq<char>) -> Seq<char> {
    let d = dashed(stem);
    let s = if d.len() > 0 && d.last() == '-' {
        d.drop_last()
    } else {
        d
    };
    if s.len() == 0 {
        "mirror"@
    } else {
        s
    }
}

fn lower_case(c: char) -> (r: char)
    ensures
        r == lower(c),
{
    if 'A' <= c && c <= 'Z' {
        ((c as u32 + 32) as u8) as char
    } else {
        c
    }
}

/// Reverse-DNS-safe identifier segment.
pub fn bundle_slug(stem: &str) -> (r: String)
    ensures
        r@ == slug_of(stem@),
{
    let chars: Vec<char> = chars_of(stem);
    let mut slug: Vec<char> = Vec::new();
    let mut i: usize = 0;
    assert(stem@.take(0) =~= Seq::<char>::empty());
    while i < chars.len()
        invariant
            i <= chars@.len(),
            chars@ == stem@,
            slug@ == dashed(stem@.take(i as int)),
        decreases chars@.len() - i,
    {
        let c: char = chars[i];
        assert(stem@.take(i + 1).drop_last() =~= stem@.take(i as int));
        if ('0' <= c && c <= '9') || ('A' <= c && c <= 'Z') || ('a' <= c && c <= 'z') {
            slug.push(lower_case(c));
        } else if slug.len() > 0 && slug[slug.len() - 1] != '-' {
            slug.push('-');
        }
        i += 1;
    }
    assert(stem@.take(i as int) =~= stem@);
    if slug.len() > 0 && slug[slug.len() - 1] == '-' {
        let _ = slug.pop();
        assert(slug@ =~= dashed(stem@).drop_last());
    }
    if slug.len() == 0 {
        "mirror".to_owned()
    } else {
        text_from(slug.as_slice())
    }
}

/// A segment that may stand in a reverse-DNS identifier: lower-case letters,
/// digits and single dashes between them.
pub open spec fn is_segment(s: Seq<char>) -> bool {
    &&& s.len() > 0
    &&& s[0] != '-'
    &&& s.last() != '-'
    &&& forall|i: int|
        0 <= i < s.len() ==> ('0' <= #[trigger] s[i] <= '9' || 'a' <= s[i] <= 'z' || s[i] == '-')
    &&& forall|i: int| 0 <= i < s.len() - 1 ==> !(#[trigger] s[i] == '-' && s[i + 1] == '-')
}

proof fn dashed_shape(stem: Seq<char>)
    ensures
        ({
            let d = dashed(stem);
            &&& d.len() > 0 ==> d[0] != '-'
            &&& forall|i: int|
                0 <= i < d.len() ==> ('0' <= #[trigger] d[i] <= '9' || 'a' <= d[i] <= 'z' || d[i]
                    == '-')
            &&& forall|i: int|
                0 <= i < d.len() - 1 ==> !(#[trigger] d[i] == '-' && d[i + 1] == '-')
        }),
    decreases stem.len(),
{
    if stem.len() > 0 {
        dashed_shape(stem.drop_last());
        let before = dashed(stem.drop_last());
        let d = dashed(stem);
        assert(is_alnum(stem.last()) ==> {
            let l = lower(stem.last());
            ('0' <= l <= '9' || 'a' <= l <= 'z') && l != '-'
        });
        assert(d == before || d.drop_last() =~= before);
        assert forall|i: int| 0 <= i < d.len() implies ('0' <= #[trigger] d[i] <= '9' || 'a' <= d[i]
            <= 'z' || d[i] == '-') by {
            if i < before.len() {
                assert(d[i] == before[i]);
            }
        }
        assert forall|i: int| 0 <= i < d.len() - 1 implies !(#[trigger] d[i] == '-' && d[i + 1]
            == '-') by {
            assert(d[i] == before[i]);
            if i + 1 < before.len() {
                assert(d[i + 1] == before[i + 1]);
            }
        }
    }
}

/// Whatever a program is called, its slug may stand in an identifier.
pub proof fn slug_is_a_segment(stem: Seq<char>)
    ensures
        is_segment(slug_of(stem)),
{
    reveal_strlit("mirror");
    dashed_shape(stem);
    let d = dashed(stem);
    if d.len() > 0 && d.last() == '-' {
        let s = d.drop_last();
        if s.len() > 0 {
            assert(d[s.len() - 1] == s.last());
            assert(!(d[s.len() - 1] == '-' && d[s.len() as int] == '-'));
        }
        assert(forall|i: int| 0 <= i < s.len() ==> s[i] == d[i]);
    }
}

proof fn trim_start_keeps(s: Seq<char>, bad: char)
    requires
        !s.contains(bad),
    ensures
        !trim_start(s).contains(bad),
    decreases s.len(),
{
    if s.len() > 0 && is_white(s[0]) {
        assert forall|i: int| 0 <= i < s.drop_first().len() implies s.drop_first()[i] != bad by {
            assert(s.drop_first()[i] == s[i + 1]);
        }
        trim_start_keeps(s.drop_first(), bad);
    }
}

proof fn trim_end_keeps(s: Seq<char>, bad: char)
    requires
        !s.contains(bad),
    ensures
        !trim_end(s).contains(bad),
    decreases s.len(),
{
    if s.len() > 0 && is_white(s.last()) {
        assert forall|i: int| 0 <= i < s.drop_last().len() implies s.drop_last()[i] != bad by {
            assert(s.drop_last()[i] == s[i]);
        }
        trim_end_keeps(s.drop_last(), bad);
    }
}

/// Whatever a program is called, its stem is one component of a path: not
/// empty and without a separator.
pub proof fn stem_is_one_component(name: Seq<char>)
    ensures
        stem_of(name).len() > 0,
        !stem_of(name).contains('/'),
        !stem_of(name).contains(':'),
{
    reveal_strlit("Mirror");
    let mapped = name.map_values(|c: char| file_char(c));
    assert(!mapped.contains('/'));
    assert(!mapped.contains(':'));
    trim_start_keeps(mapped, '/');
    trim_start_keeps(mapped, ':');
    trim_end_keeps(trim_start(mapped), '/');
    trim_end_keeps(trim_start(mapped), ':');
}

/// What stands for a character in XML text.
pub open spec fn escape_char(c: char) -> Seq<char> {
    if c == '&' {
        "&amp;"@
    } else if c == '<' {
        "&lt;"@
    } else if c == '>' {
        "&gt;"@
    } else {
        seq![c]
    }
}

/// The text that stands for `s` in XML.
pub open spec fn escaped(s: Seq<char>) -> Seq<char>
    decreases s.len(),
{
    if s.len() == 0 {
        Seq::empty()
    } else {
        escaped(s.drop_last()) + escape_char(s.last())
    }
}

pub fn xml_escape(s: &str) -> (r: String)
    ensures
        r@ == escaped(s@),
{
    let chars: Vec<char> = chars_of(s);
    let mut out = String::new();
    let mut i: usize = 0;
    assert(s@.take(0) =~= Seq::<char>::empty());
    while i < chars.len()
        invariant
            i <= chars@.len(),
            chars@ == s@,
            out@ == escaped(s@.take(i as int)),
        decreases chars@.len() - i,
    {
        let c: char = chars[i];
        assert(s@.take(i + 1).drop_last() =~= s@.take(i as int));
        let ghost before = out@;
        if c == '&' {
            out.append("&amp;");
        } else if c == '<' {
            out.append("&lt;");
        } else if c == '>' {
            out.append("&gt;");
        } else {
            out.push(c);
        }
        assert(out@ =~= before + escape_char(c));
        i += 1;
    }
    assert(s@.take(i as int) =~= s@);
    out
}

/// Escaped text holds no markup characters.
pub proof fn escaped_has_no_markup(s: Seq<char>)
    ensures
        !escaped(s).contains('<'),
        !escaped(s).contains('>'),
    decreases s.len(),
{
    reveal_strlit("&amp;");
    reveal_strlit("&lt;");
    reveal_strlit("&gt;");
    if s.len() > 0 {
        let head = escaped(s.drop_last());
        let e = escape_char(s.last());
        escaped_has_no_markup(s.drop_last());
        assert forall|i: int| 0 <= i < (head + e).len() implies (head + e)[i] != '<' && (head + e)[i]
            != '>' by {
            if i < head.len() {
                assert((head + e)[i] == head[i]);
                assert(head.contains(head[i]));
            } else {
                assert((head + e)[i] == e[i - head.len()]);
            }
        }
    }
}

/// The name of the `n`-th bundle of a stem: the stem itself, then the stem
/// with a number behind it.
pub open spec fn candidate(stem: Seq<char>, n: nat) -> Seq<char> {
    if n == 1 {
        stem
    } else {
        stem + " "@ + decimal(n)
    }
}

/// The directory of a bundle of that name.
pub open spec fn dir_of(name: Seq<char>) -> Seq<char> {
    name + ".app"@
}

/// Whether a directory is claimed.
pub open spec fn claimed(taken: Seq<String>, dir: Seq<char>) -> bool {
    exists|i: int| 0 <= i < taken.len() && #[trigger] taken[i]@ == dir
}

/// `n` numbers the first free bundle of a stem.
pub open spec fn first_free(stem: Seq<char>, taken: Seq<String>, n: nat) -> bool {
    &&& n >= 1
    &&& !claimed(taken, dir_of(candidate(stem, n)))
    &&& forall|m: nat| 1 <= m < n ==> claimed(taken, dir_of(#[trigger] candidate(stem, m)))
}

/// The property list of a bundle.
pub open spec fn plist_text(display: Seq<char>, exe_name: Seq<char>) -> Seq<char> {
    "<?xml version=\"1.0\" encoding=\"UTF-8\"?>\n<!DOCTYPE plist PUBLIC \"-//Apple//DTD PLIST 1.0//EN\" \"http://www.apple.com/DTDs/PropertyList-1.0.dtd\">\n<plist version=\"1.0\">\n<dict>\n\t<key>CFBundleName</key>\n\t<string>"@
        + escaped(display)
        + "</string>\n\t<key>CFBundleDisplayName</key>\n\t<string>"@
        + escaped(display)
        + "</string>\n\t<key>CFBundleIdentifier</key>\n\t<string>io.shebbak.mirror."@
        + slug_of(exe_name)
        + "</string>\n\t<key>CFBundleExecutable</key>\n\t<string>"@
        + escaped(exe_name)
        + "</string>\n\t<key>CFBundlePackageType</key>\n\t<string>APPL</string>\n\t<key>CFBundleInfoDictionaryVersion</key>\n\t<string>6.0</string>\n\t<key>NSHighResolutionCapable</key>\n\t<true/>\n</dict>\n</plist>\n"@
}

/// What has to stand on disk before a helper can be spawned.
pub struct BundlePlan {
    pub bundle: StubBundle,
    /// The text of `Contents/Info.plist`.
    pub plist: String,
}

/// What a [`BundlePlan`] says.
pub struct PlanView {
    pub dir: Seq<char>,
    pub exe: Seq<char>,
    pub plist: Seq<char>,
}

impl View for BundlePlan {
    type V = PlanView;

    open spec fn view(&self) -> PlanView {
        PlanView { dir: self.bundle.dir@, exe: self.bundle.exe@, plist: self.plist@ }
    }
}

/// The number of the first free bundle of a stem.
pub open spec fn free_number(stem: Seq<char>, taken: Seq<String>) -> nat {
    choose|n: nat| first_free(stem, taken, n)
}

/// The bundle of a program while some directories are claimed.
pub open spec fn plan_of(display: Seq<char>, taken: Seq<String>) -> PlanView {
    let name = candidate(stem_of(display), free_number(stem_of(display), taken));
    PlanView {
        dir: dir_of(name),
        exe: dir_of(name) + "/Contents/MacOS/"@ + name,
        plist: plist_text(display, name),
    }
}

/// There is one first free bundle.
pub proof fn first_free_is_unique(stem: Seq<char>, taken: Seq<String>, n: nat)
    requires
        first_free(stem, taken, n),
    ensures
        free_number(stem, taken) == n,
{
    let m = free_number(stem, taken);
    assert(first_free(stem, taken, m));
    assert(claimed(taken, dir_of(candidate(stem, if m < n { m } else { n }))) || m == n);
}

fn is_claimed(taken: &Vec<String>, dir: &String) -> (b: bool)
    ensures
        b == claimed(taken@, dir@),
{
    let mut i: usize = 0;
    while i < taken.len()
        invariant
            i <= taken@.len(),
            forall|j: int| 0 <= j < i ==> #[trigger] taken@[j]@ != dir@,
        decreases taken@.len() - i,
    {
        if taken[i] == *dir {
            return true;
        }
        i += 1;
    }
    false
}

/// Bundles with different numbers have different directories.
pub proof fn candidates_differ(stem: Seq<char>, a: nat, b: nat)
    requires
        dir_of(candidate(stem, a)) == dir_of(candidate(stem, b)),
        a >= 1,
        b >= 1,
    ensures
        a == b,
{
    reveal_strlit(" ");
    let ca = candidate(stem, a);
    let cb = candidate(stem, b);
    assert(ca =~= dir_of(ca).take(dir_of(ca).len() - ".app"@.len()));
    assert(cb =~= dir_of(cb).take(dir_of(cb).len() - ".app"@.len()));
    assert(ca == cb);
    if a != 1 && b != 1 {
        assert(decimal(a) =~= ca.skip((stem.len() + 1) as int));
        assert(decimal(b) =~= cb.skip((stem.len() + 1) as int));
        decimal_injective(a, b);
    } else if a != 1 || b != 1 {
        assert(ca.len() == cb.len());
    }
}

/// As many names as are claimed can be tried in vain, no more.
proof fn claims_bound(stem: Seq<char>, taken: Seq<String>, n: nat)
    requires
        forall|m: nat| 1 <= m <= n ==> claimed(taken, dir_of(#[trigger] candidate(stem, m))),
    ensures
        n <= taken.len(),
{
    let f = |m: int|
        choose|i: int|
            0 <= i < taken.len() && #[trigger] taken[i]@ == dir_of(candidate(stem, m as nat));
    let x = vstd::set_lib::set_int_range(1, (n + 1) as int);
    let y = x.map(f);
    let all = vstd::set_lib::set_int_range(0, taken.len() as int);
    vstd::set_lib::lemma_int_range(1, (n + 1) as int);
    vstd::set_lib::lemma_int_range(0, taken.len() as int);
    assert forall|m: int| #[trigger] x.contains(m) implies 0 <= f(m) < taken.len() && taken[f(
        m,
    )]@ == dir_of(candidate(stem, m as nat)) by {
        assert(claimed(taken, dir_of(candidate(stem, m as nat))));
    }
    assert forall|a: int, b: int| x.contains(a) && x.contains(b) && f(a) == f(b) implies a == b by {
        candidates_differ(stem, a as nat, b as nat);
    }
    vstd::set_lib::lemma_map_size(x, y, f);
    assert(y.subset_of(all));
    vstd::set_lib::lemma_len_subset(y, all);
}

proof fn first_free_from(stem: Seq<char>, taken: Seq<String>, n: nat)
    requires
        n >= 1,
        forall|m: nat| 1 <= m < n ==> claimed(taken, dir_of(#[trigger] candidate(stem, m))),
    ensures
        exists|k: nat| first_free(stem, taken, k),
    decreases taken.len() + 1 - n,
{
    if claimed(taken, dir_of(candidate(stem, n))) {
        claims_bound(stem, taken, n);
        first_free_from(stem, taken, n + 1);
    } else {
        assert(first_free(stem, taken, n));
    }
}

/// A new bundle never takes a directory that another application has this
/// session, and takes the plain name when that is free.
pub proof fn planned_directory_is_free(display: Seq<char>, taken: Seq<String>)
    ensures
        !claimed(taken, plan_of(display, taken).dir),
        !claimed(taken, dir_of(stem_of(display))) ==> plan_of(display, taken).dir == dir_of(
            stem_of(display),
        ),
{
    let stem = stem_of(display);
    first_free_from(stem, taken, 1);
    if !claimed(taken, dir_of(stem)) {
        assert(first_free(stem, taken, 1));
        first_free_is_unique(stem, taken, 1);
    }
}

/// Plans `<mirrors_dir>/<Name>.app`, suffixing " 2", " 3", ... while `taken`
/// claims the directory for a different app this session.
pub fn plan_bundle(display_name: &str, taken: &Vec<String>) -> (plan: BundlePlan)
    ensures
        plan@ == plan_of(display_name@, taken@),
        first_free(
            stem_of(display_name@),
            taken@,
            free_number(stem_of(display_name@), taken@),
        ),
{
    let stem: String = dir_stem(display_name);
    let ghost base = stem@;
    let mut n: u128 = 1;
    loop
        invariant
            n >= 1,
            base == stem@,
            base == stem_of(display_name@),
            forall|m: nat| 1 <= m < n ==> claimed(taken@, dir_of(#[trigger] candidate(base, m))),
        decreases u128::MAX - n,
    {
        let mut name: String = stem.clone();
        if n != 1 {
            name.append(" ");
            push_decimal(&mut name, n);
        }
        assert(name@ =~= candidate(base, n as nat));
        let mut dir: String = name.clone();
        dir.append(".app");
        if !is_claimed(taken, &dir) {
            let mut exe: String = dir.clone();
            exe.append("/Contents/MacOS/");
            exe.append(name.as_str());
            let plist: String = plist_for(display_name, name.as_str());
            proof {
                first_free_is_unique(base, taken@, n as nat);
            }
            return BundlePlan { bundle: StubBundle { dir, exe }, plist };
        }
        proof {
            claims_bound(base, taken@, n as nat);
        }
        assert(taken.len() == taken@.len());
        n += 1;
    }
}

/// The bundle's property list; rewritten on every start, which handles
/// host-side renames.
pub fn plist_for(display_name: &str, exe_name: &str) -> (r: String)
    ensures
        r@ == plist_text(display_name@, exe_name@),
{
    let display: String = xml_escape(display_name);
    let slug: String = bundle_slug(exe_name);
    let exe: String = xml_escape(exe_name);
    let mut out: String = "<?xml version=\"1.0\" encoding=\"UTF-8\"?>\n<!DOCTYPE plist PUBLIC \"-//Apple//DTD PLIST 1.0//EN\" \"http://www.apple.com/DTDs/PropertyList-1.0.dtd\">\n<plist version=\"1.0\">\n<dict>\n\t<key>CFBundleName</key>\n\t<string>".to_owned();
    out.append(display.as_str());
    out.append("</string>\n\t<key>CFBundleDisplayName</key>\n\t<string>");
    out.append(display.as_str());
    out.append("</string>\n\t<key>CFBundleIdentifier</key>\n\t<string>io.shebbak.mirror.");
    out.append(slug.as_str());
    out.append("</string>\n\t<key>CFBundleExecutable</key>\n\t<string>");
    out.append(exe.as_str());
    out.append("</string>\n\t<key>CFBundlePackageType</key>\n\t<string>APPL</string>\n\t<key>CFBundleInfoDictionaryVersion</key>\n\t<string>6.0</string>\n\t<key>NSHighResolutionCapable</key>\n\t<true/>\n</dict>\n</plist>\n");
    out
}

} // verus!
