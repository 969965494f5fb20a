//! Write safety: the risk of writing to a disk, the confirmation phrase, and
//! the checks a write must pass before it gets a [`WriteToken`].

use vstd::prelude::*;

use crate::model::{opt_str, ChangePlan, DiskInfo};
use crate::text::{
    concat, eq_ignore_ascii_case, eq_ignore_ascii_case_spec, find_char, first_index_of,
    last_index_of, rfind_char, same_text, split_fields, starts_with, starts_with_spec, string_of, fields,
};
use crate::token::{spec_hash_text, WriteToken};

verus! {

/// The final component of a path, as text, as `std::path::Path::file_name`
/// gives it.
pub uninterp spec fn file_name_of(path: Seq<char>) -> Option<Seq<char>>;

/// A file name that `Path` reads alike on every platform: not empty, not
/// `.` or `..`, and without `/`, `\` or `:`.
pub open spec fn is_plain_name(n: Seq<char>) -> bool {
    &&& n.len() > 0
    &&& n != "."@
    &&& n != ".."@
    &&& !n.contains('/')
    &&& !n.contains('\\')
    &&& !n.contains(':')
}

/// The final component of `path`, where the text alone decides it: the path
/// has no `\` or `:` and does not start with `//` (so no platform reads a
/// prefix in it), and the text after its last `/` is a plain name.
pub open spec fn plain_file_name(path: Seq<char>) -> Option<Seq<char>> {
    let n = match last_index_of(path, '/') {
        Some(i) => path.subrange(i + 1, path.len() as int),
        None => path,
    };
    if !path.contains('\\') && !path.contains(':') && !starts_with_spec(path, "//"@)
        && is_plain_name(n) {
        Some(n)
    } else {
        None
    }
}

/// The final component of `path`, as text: the plain name after its last
/// `/` where there is one, else what `Path::file_name` gives.
pub open spec fn spec_file_name(path: Seq<char>) -> Option<Seq<char>> {
    match plain_file_name(path) {
        Some(n) => Some(n),
        None => file_name_of(path),
    }
}

/// The final component of `path` (`std::path::Path::file_name`, as text;
/// a path made from text always converts back). Where the path has no `\`
/// or `:`, does not start with `//`, and ends in a plain name after its last
/// `/`, that name is the component: the documented reading of separators
/// and components, alike on every platform. Of other paths (how trailing
/// separators, `.`, `..` and prefixes are read) the result is left to the
/// named result.
#[verifier::external_body]
fn path_file_name(path: &str) -> (r: Option<String>)
    ensures
        r matches Some(n) ==> file_name_of(path@) == Some(n@),
        r is None ==> file_name_of(path@) is None,
        opt_str(r) == plain_file_name(path@) || plain_file_name(path@) is None,
{
    match std::path::Path::new(path).file_name() {
        Some(name) => match name.to_str() {
            Some(text) => Some(text.to_string()),
            None => None,
        },
        None => None,
    }
}

/// The phrase a user types to confirm a write to `path`: its file name, or
/// the whole path when it has none.
pub open spec fn spec_confirmation_phrase(path: Seq<char>) -> Seq<char> {
    match spec_file_name(path) {
        Some(n) => n,
        None => path,
    }
}

/// The phrase that confirms a write to the disk at `path`.
pub fn disk_confirmation_phrase(path: &str) -> (phrase: String)
    ensures
        phrase@ == spec_confirmation_phrase(path@),
{
    match path_file_name(path) {
        Some(name) => name,
        None => string_of(path),
    }
}

/// The extension of a file name: the text after its last `.`, unless there
/// is no `.` or the only `.` starts the name (`Path::extension`).
pub open spec fn extension_of_name(name: Seq<char>) -> Option<Seq<char>> {
    match last_index_of(name, '.') {
        None => None,
        Some(i) => if i == 0 {
            None
        } else {
            Some(name.subrange(i + 1, name.len() as int))
        },
    }
}

/// The extension of the file named by `path`.
pub open spec fn spec_path_extension(path: Seq<char>) -> Option<Seq<char>> {
    match spec_file_name(path) {
        Some(n) => extension_of_name(n),
        None => None,
    }
}

proof fn lemma_last_index_bound(s: Seq<char>, c: char)
    ensures
        last_index_of(s, c) matches Some(i) ==> 0 <= i < s.len() && s[i] == c,
    decreases s.len(),
{
    if s.len() > 0 && s.last() != c {
        lemma_last_index_bound(s.drop_last(), c);
    }
}

proof fn lemma_first_index_bound(s: Seq<char>, c: char)
    ensures
        first_index_of(s, c) matches Some(i) ==> 0 <= i < s.len() && s[i] == c,
    decreases s.len(),
{
    if s.len() > 0 && s[0] != c {
        lemma_first_index_bound(s.drop_first(), c);
    }
}

/// The extension of a file name (`Path::extension` on the name).
pub fn name_extension(name: &str) -> (r: Option<String>)
    ensures
        r matches Some(e) ==> extension_of_name(name@) == Some(e@),
        r is None ==> extension_of_name(name@) is None,
{
    match rfind_char(name, '.') {
        None => None,
        Some(i) => {
            proof {
                lemma_last_index_bound(name@, '.');
            }
            if i == 0 {
                None
            } else {
                let n = name.unicode_len();
                Some(string_of(name.substring_char(i + 1, n)))
            }
        },
    }
}

/// The extension of the file that `path` names.
pub fn path_extension(path: &str) -> (r: Option<String>)
    ensures
        r matches Some(e) ==> spec_path_extension(path@) == Some(e@),
        r is None ==> spec_path_extension(path@) is None,
{
    match path_file_name(path) {
        None => None,
        Some(name) => name_extension(name.as_str()),
    }
}

/// `path` names a file with the extension `img`, in any ASCII case.
pub open spec fn spec_is_image_path(path: Seq<char>) -> bool {
    spec_path_extension(path) matches Some(e) && eq_ignore_ascii_case_spec(e, "img"@)
}

/// Whether `path` names an `.img` image file.
pub fn is_image_path(path: &str) -> (r: bool)
    ensures
        r == spec_is_image_path(path@),
{
    match path_extension(path) {
        Some(e) => eq_ignore_ascii_case(e.as_str(), "img"),
        None => false,
    }
}

/// The kind of device a path names.
#[derive(Debug, Clone, Copy, PartialEq, Eq, Structural)]
pub enum DevicePathKind {
    ImageFile,
    LinuxBlockDevice,
    Other,
}

/// What the system says of a target path: how the path is classified,
/// whether a Linux block device is a whole-disk node (not a partition), and
/// the device mounted at `/`, where it could be read.
#[derive(Debug, Clone)]
pub struct DeviceProbe {
    pub kind: DevicePathKind,
    pub whole_disk: bool,
    pub root_device: Option<String>,
}

/// The whole-disk name of a device name: `nvme0n1p2` gives `nvme0n1`;
/// `mmcblk0p1`, `sdp…` and `vdp…` are cut at their first `p`; other names
/// stay as they are.
pub open spec fn spec_device_key(name: Seq<char>) -> Seq<char> {
    let nvme_cut = if starts_with_spec(name, "nvme"@) {
        first_index_of(name.subrange(4, name.len() as int), 'p')
    } else {
        None
    };
    match nvme_cut {
        Some(idx) => "nvme"@ + name.subrange(4, 4 + idx),
        None => match first_index_of(name, 'p') {
            Some(idx) => if starts_with_spec(name, "mmcblk"@) || starts_with_spec(name, "sd"@)
                || starts_with_spec(name, "vd"@) {
                name.subrange(0, idx)
            } else {
                name
            },
            None => name,
        },
    }
}

/// The whole-disk name of a block device path: that of its file name.
pub open spec fn spec_block_device_key(path: Seq<char>) -> Seq<char> {
    spec_device_key(spec_confirmation_phrase(path))
}

/// The whole-disk name of a device name.
pub fn device_key(name: &str) -> (key: String)
    ensures
        key@ == spec_device_key(name@),
{
    let s = name;
    let n = s.unicode_len();
    proof {
        reveal_strlit("nvme");
        reveal_strlit("mmcblk");
        reveal_strlit("sd");
        reveal_strlit("vd");
    }
    if starts_with(s, "nvme") {
        let base = s.substring_char(4, n);
        match find_char(base, 'p') {
            Some(idx) => {
                proof {
                    lemma_first_index_bound(base@, 'p');
                    assert(base@.subrange(0, idx as int) =~= s@.subrange(4, 4 + idx));
                }
                return concat("nvme", base.substring_char(0, idx));
            },
            None => {},
        }
    }
    match find_char(s, 'p') {
        Some(idx) => {
            proof {
                lemma_first_index_bound(s@, 'p');
            }
            if starts_with(s, "mmcblk") || starts_with(s, "sd") || starts_with(s, "vd") {
                string_of(s.substring_char(0, idx))
            } else {
                string_of(s)
            }
        },
        None => string_of(s),
    }
}

/// The whole-disk name of a block device path.
pub fn block_device_key(path: &str) -> (key: String)
    ensures
        key@ == spec_block_device_key(path@),
{
    let name = disk_confirmation_phrase(path);
    device_key(name.as_str())
}

/// Every character of `s` is a decimal digit.
pub open spec fn is_decimal(s: Seq<char>) -> bool {
    forall|i: int| 0 <= i < s.len() ==> '0' <= #[trigger] s[i] <= '9'
}

proof fn lemma_first_index_after(s: Seq<char>, t: Seq<char>, c: char)
    requires
        !s.contains(c),
    ensures
        first_index_of(s + t, c) == (match first_index_of(t, c) {
            Some(i) => Some(i + s.len()),
            None => None::<int>,
        }),
    decreases s.len(),
{
    if s.len() > 0 {
        assert((s + t).drop_first() =~= s.drop_first() + t);
        assert((s + t)[0] == s[0]);
        assert(!s.drop_first().contains(c)) by {
            if s.drop_first().contains(c) {
                let j = choose|j: int| 0 <= j < s.drop_first().len() && s.drop_first()[j] == c;
                assert(s[j + 1] == c);
            }
        }
        lemma_first_index_after(s.drop_first(), t, c);
    } else {
        assert(s + t =~= t);
    }
}

proof fn lemma_first_index_none(s: Seq<char>, c: char)
    requires
        !s.contains(c),
    ensures
        first_index_of(s, c) is None,
{
    lemma_first_index_after(s, Seq::<char>::empty(), c);
    assert(s + Seq::<char>::empty() =~= s);
}

proof fn lemma_decimal_has_no(s: Seq<char>, c: char)
    requires
        is_decimal(s),
        !('0' <= c <= '9'),
    ensures
        !s.contains(c),
{
    if s.contains(c) {
        let j = choose|j: int| 0 <= j < s.len() && s[j] == c;
        assert('0' <= s[j] <= '9');
    }
}

/// Every character of `s` is a decimal digit or a lowercase ASCII letter.
pub open spec fn is_alnum_lower(s: Seq<char>) -> bool {
    forall|i: int| 0 <= i < s.len() ==> ('0' <= #[trigger] s[i] <= '9' || 'a' <= s[i] <= 'z')
}

proof fn lemma_alnum_concat(a: Seq<char>, b: Seq<char>)
    requires
        is_alnum_lower(a),
        is_alnum_lower(b),
    ensures
        is_alnum_lower(a + b),
{
    assert forall|i: int| 0 <= i < (a + b).len() implies ('0' <= #[trigger] (a + b)[i] <= '9' || 'a'
        <= (a + b)[i] <= 'z') by {
        if i < a.len() {
            assert((a + b)[i] == a[i]);
        } else {
            assert((a + b)[i] == b[i - a.len()]);
        }
    }
}

proof fn lemma_not_contains_concat(a: Seq<char>, b: Seq<char>, c: char)
    requires
        !a.contains(c),
        !b.contains(c),
    ensures
        !(a + b).contains(c),
{
    if (a + b).contains(c) {
        let j = choose|j: int| 0 <= j < (a + b).len() && (a + b)[j] == c;
        if j < a.len() {
            assert(a[j] == c);
        } else {
            assert(b[j - a.len()] == c);
        }
    }
}

proof fn lemma_alnum_lacks(s: Seq<char>, c: char)
    requires
        is_alnum_lower(s),
        !('0' <= c <= '9' || 'a' <= c <= 'z'),
    ensures
        !s.contains(c),
{
    if s.contains(c) {
        let j = choose|j: int| 0 <= j < s.len() && s[j] == c;
        assert('0' <= s[j] <= '9' || 'a' <= s[j] <= 'z');
    }
}

/// A non-empty run of digits and lowercase letters is a plain name.
proof fn lemma_alnum_plain(s: Seq<char>)
    requires
        is_alnum_lower(s),
        s.len() > 0,
    ensures
        is_plain_name(s),
{
    reveal_strlit(".");
    reveal_strlit("..");
    lemma_alnum_lacks(s, '/');
    lemma_alnum_lacks(s, '\\');
    lemma_alnum_lacks(s, ':');
    assert('0' <= s[0] <= '9' || 'a' <= s[0] <= 'z');
    assert(s != "."@) by {
        if s == "."@ {
            assert(s[0] == '.');
        }
    }
    assert(s != ".."@) by {
        if s == ".."@ {
            assert(s[0] == '.');
        }
    }
}

proof fn lemma_last_index_after(s: Seq<char>, t: Seq<char>, c: char)
    requires
        !t.contains(c),
    ensures
        last_index_of(s + t, c) == last_index_of(s, c),
    decreases t.len(),
{
    if t.len() == 0 {
        assert(s + t =~= s);
    } else {
        assert((s + t).drop_last() =~= s + t.drop_last());
        assert((s + t).last() == t.last());
        assert(!t.drop_last().contains(c)) by {
            if t.drop_last().contains(c) {
                let j = choose|j: int| 0 <= j < t.drop_last().len() && t.drop_last()[j] == c;
                assert(t[j] == c);
            }
        }
        lemma_last_index_after(s, t.drop_last(), c);
    }
}

/// A plain name is its own file name, so the phrase for a name is the name.
pub proof fn lemma_plain_name_is_own_file_name(n: Seq<char>)
    requires
        is_plain_name(n),
    ensures
        plain_file_name(n) == Some(n),
        spec_file_name(n) == Some(n),
        spec_confirmation_phrase(n) == n,
{
    reveal_strlit("//");
    lemma_last_index_after(Seq::<char>::empty(), n, '/');
    assert(Seq::<char>::empty() + n =~= n);
    assert(!starts_with_spec(n, "//"@)) by {
        if starts_with_spec(n, "//"@) {
            assert(n.subrange(0, 2)[0] == '/');
            assert(n[0] == '/');
        }
    }
}

/// The phrase that confirms a write is its own phrase: typing it back as a
/// path names the same thing, wherever the path ends in a plain name.
pub proof fn lemma_phrase_of_phrase(path: Seq<char>)
    requires
        plain_file_name(path) is Some,
    ensures
        spec_confirmation_phrase(spec_confirmation_phrase(path)) == spec_confirmation_phrase(path),
{
    let n = plain_file_name(path)->0;
    lemma_plain_name_is_own_file_name(n);
}

/// Under `/dev/`, a plain name is the file name of its node.
pub proof fn lemma_dev_node_file_name(name: Seq<char>)
    requires
        is_plain_name(name),
    ensures
        spec_file_name("/dev/"@ + name) == Some(name),
        spec_confirmation_phrase("/dev/"@ + name) == name,
        spec_block_device_key("/dev/"@ + name) == spec_device_key(name),
{
    reveal_strlit("/dev/");
    reveal_strlit("//");
    let d = "/dev/"@;
    let path = d + name;
    lemma_last_index_after(d, name, '/');
    assert(last_index_of(d, '/') == Some(4int));
    assert(path.subrange(5, path.len() as int) =~= name);
    assert(!d.contains('\\')) by {
        if d.contains('\\') {
            let j = choose|j: int| 0 <= j < d.len() && d[j] == '\\';
        }
    }
    assert(!d.contains(':')) by {
        if d.contains(':') {
            let j = choose|j: int| 0 <= j < d.len() && d[j] == ':';
        }
    }
    lemma_not_contains_concat(d, name, '\\');
    lemma_not_contains_concat(d, name, ':');
    assert(!starts_with_spec(path, "//"@)) by {
        if starts_with_spec(path, "//"@) {
            assert(path.subrange(0, 2)[1] == '/');
            assert(path[1] == 'd');
        }
    }
}

/// A partition node and its whole disk share a key: with decimal `a`, `b`
/// and `k`, `nvme<a>n<b>p<k>` and `nvme<a>n<b>` both give `nvme<a>n<b>`,
/// and `mmcblk<a>p<k>` and `mmcblk<a>` both give `mmcblk<a>`; so do their
/// nodes under `/dev/`.
pub proof fn lemma_partition_shares_disk_key(a: Seq<char>, b: Seq<char>, k: Seq<char>)
    requires
        is_decimal(a),
        is_decimal(b),
        is_decimal(k),
    ensures
        spec_device_key("nvme"@ + a + "n"@ + b + "p"@ + k) == "nvme"@ + a + "n"@ + b,
        spec_device_key("nvme"@ + a + "n"@ + b) == "nvme"@ + a + "n"@ + b,
        spec_device_key("mmcblk"@ + a + "p"@ + k) == "mmcblk"@ + a,
        spec_device_key("mmcblk"@ + a) == "mmcblk"@ + a,
        spec_block_device_key("/dev/"@ + ("nvme"@ + a + "n"@ + b + "p"@ + k)) == "nvme"@ + a + "n"@
            + b,
        spec_block_device_key("/dev/"@ + ("nvme"@ + a + "n"@ + b)) == "nvme"@ + a + "n"@ + b,
        spec_block_device_key("/dev/"@ + ("mmcblk"@ + a + "p"@ + k)) == "mmcblk"@ + a,
        spec_block_device_key("/dev/"@ + ("mmcblk"@ + a)) == "mmcblk"@ + a,
{
    reveal_strlit("nvme");
    reveal_strlit("n");
    reveal_strlit("p");
    reveal_strlit("mmcblk");
    lemma_decimal_has_no(a, 'p');
    lemma_decimal_has_no(b, 'p');
    let nv = "nvme"@;
    let mm = "mmcblk"@;
    let rest = a + "n"@ + b;
    assert(!rest.contains('p')) by {
        if rest.contains('p') {
            let j = choose|j: int| 0 <= j < rest.len() && rest[j] == 'p';
            if j < a.len() {
                assert(a[j] == 'p');
            } else if j == a.len() {
            } else {
                assert(b[j - a.len() - 1] == 'p');
            }
        }
    }
    assert(!nv.contains('p')) by {
        if nv.contains('p') {
            let j = choose|j: int| 0 <= j < nv.len() && nv[j] == 'p';
        }
    }
    assert(!mm.contains('p')) by {
        if mm.contains('p') {
            let j = choose|j: int| 0 <= j < mm.len() && mm[j] == 'p';
        }
    }
    // nvme<a>n<b>p<k>
    let part = nv + rest + "p"@ + k;
    assert(part.subrange(4, part.len() as int) =~= rest + ("p"@ + k));
    assert(part.subrange(0, 4) =~= nv);
    lemma_first_index_after(rest, "p"@ + k, 'p');
    assert(first_index_of("p"@ + k, 'p') == Some(0int));
    assert(part.subrange(4, 4 + rest.len() as int) =~= rest);
    assert(nv + a + "n"@ + b + "p"@ + k =~= part);
    assert(nv + a + "n"@ + b =~= nv + rest);
    // nvme<a>n<b>
    let disk = nv + rest;
    assert(disk.subrange(0, 4) =~= nv);
    assert(disk.subrange(4, disk.len() as int) =~= rest);
    lemma_first_index_none(rest, 'p');
    lemma_first_index_after(nv, rest, 'p');
    // mmcblk<a>p<k>
    let mpart = mm + a + "p"@ + k;
    assert(mpart.subrange(0, 4) != nv) by {
        assert(mpart.subrange(0, 4)[0] == 'm');
    }
    assert(mpart =~= (mm + a) + ("p"@ + k));
    assert(!(mm + a).contains('p')) by {
        if (mm + a).contains('p') {
            let j = choose|j: int| 0 <= j < (mm + a).len() && (mm + a)[j] == 'p';
            if j >= 6 {
                assert(a[j - 6] == 'p');
            }
        }
    }
    lemma_first_index_after(mm + a, "p"@ + k, 'p');
    assert(mpart.subrange(0, 6) =~= mm);
    assert(mpart.subrange(0, 6 + a.len() as int) =~= mm + a);
    // mmcblk<a>
    let mdisk = mm + a;
    assert(mdisk.subrange(0, 4) != nv) by {
        assert(mdisk.subrange(0, 4)[0] == 'm');
    }
    lemma_first_index_none(mm + a, 'p');
    // the same names under /dev/
    assert(is_alnum_lower(nv) && is_alnum_lower(mm) && is_alnum_lower("n"@) && is_alnum_lower(
        "p"@,
    ));
    assert(is_alnum_lower(a) && is_alnum_lower(b) && is_alnum_lower(k));
    lemma_alnum_concat(nv, a);
    lemma_alnum_concat(nv + a, "n"@);
    lemma_alnum_concat(nv + a + "n"@, b);
    lemma_alnum_concat(nv + a + "n"@ + b, "p"@);
    lemma_alnum_concat(nv + a + "n"@ + b + "p"@, k);
    lemma_alnum_concat(mm, a);
    lemma_alnum_concat(mm + a, "p"@);
    lemma_alnum_concat(mm + a + "p"@, k);
    lemma_alnum_plain(nv + a + "n"@ + b + "p"@ + k);
    lemma_alnum_plain(nv + a + "n"@ + b);
    lemma_alnum_plain(mm + a + "p"@ + k);
    lemma_alnum_plain(mm + a);
    lemma_dev_node_file_name(nv + a + "n"@ + b + "p"@ + k);
    lemma_dev_node_file_name(nv + a + "n"@ + b);
    lemma_dev_node_file_name(mm + a + "p"@ + k);
    lemma_dev_node_file_name(mm + a);
}

/// The target is (or is on) the disk that holds the root file system.
pub open spec fn spec_is_system_disk(path: Seq<char>, probe: DeviceProbe) -> bool {
    &&& probe.kind != DevicePathKind::ImageFile
    &&& probe.root_device matches Some(root) && {
        let key = spec_block_device_key(path);
        key.len() > 0 && key == spec_block_device_key(root@)
    }
}

fn detect_system_disk(path: &str, probe: &DeviceProbe) -> (r: bool)
    ensures
        r == spec_is_system_disk(path@, *probe),
{
    if probe.kind == DevicePathKind::ImageFile {
        return false;
    }
    match &probe.root_device {
        Some(root) => {
            let target = block_device_key(path);
            let root_key = block_device_key(root.as_str());
            target.as_str().unicode_len() != 0 && same_text(target.as_str(), root_key.as_str())
        },
        None => false,
    }
}

/// How risky a write to a device is.
#[derive(Debug, Clone, Copy, PartialEq, Eq, Structural)]
pub enum RiskLevel {
    Low,
    Medium,
    High,
    Critical,
}

/// The risk of writing to a device, with the reasons, and whether a write
/// is allowed at all.
#[derive(Debug, Clone)]
pub struct RiskAssessment {
    pub level: RiskLevel,
    pub is_system_disk: bool,
    pub is_removable: bool,
    pub is_image: bool,
    pub warnings: Vec<String>,
    pub write_allowed: bool,
}

/// A Linux block device path that is not a whole-disk node.
pub open spec fn spec_partition_node(probe: DeviceProbe) -> bool {
    probe.kind == DevicePathKind::LinuxBlockDevice && !probe.whole_disk
}

/// The risk level: critical for a read-only device, the system disk or a
/// partition node; otherwise low for an image, medium for removable media
/// and high for a fixed disk.
pub open spec fn spec_risk_level(path: Seq<char>, info: DiskInfo, probe: DeviceProbe) -> RiskLevel {
    if info.read_only || spec_is_system_disk(path, probe) || spec_partition_node(probe) {
        RiskLevel::Critical
    } else if probe.kind == DevicePathKind::ImageFile {
        RiskLevel::Low
    } else if info.removable {
        RiskLevel::Medium
    } else {
        RiskLevel::High
    }
}

/// One warning, when `cond` holds.
pub open spec fn warning_if(cond: bool, text: Seq<char>) -> Seq<Seq<char>> {
    if cond {
        seq![text]
    } else {
        Seq::empty()
    }
}

/// The warnings of an assessment, in order.
pub open spec fn spec_risk_warnings(path: Seq<char>, info: DiskInfo, probe: DeviceProbe) -> Seq<
    Seq<char>,
> {
    let image = probe.kind == DevicePathKind::ImageFile;
    warning_if(!image && !info.removable, "固定式磁碟：寫入可能影響系統資料"@) + warning_if(
        info.removable,
        "可卸除媒體"@,
    ) + warning_if(info.read_only, "裝置目前為唯讀"@) + warning_if(
        spec_is_system_disk(path, probe),
        "偵測到可能為系統碟或 root 所在磁碟"@,
    ) + warning_if(spec_partition_node(probe), "路徑不是整顆磁碟節點，寫入已封鎖"@)
}

/// A write is allowed to an image, or to a writable whole-disk Linux node.
pub open spec fn spec_write_allowed(info: DiskInfo, probe: DeviceProbe) -> bool {
    probe.kind == DevicePathKind::ImageFile || (probe.kind == DevicePathKind::LinuxBlockDevice
        && probe.whole_disk && !info.read_only)
}

fn push_warning(w: &mut Vec<String>, text: &str)
    ensures
        final(w)@.map_values(|s: String| s@) == old(w)@.map_values(|s: String| s@).push(text@),
{
    w.push(string_of(text));
    proof {
        assert(final(w)@.map_values(|s: String| s@) =~= old(w)@.map_values(|s: String| s@).push(
            text@,
        ));
    }
}

/// Assesses the risk of writing to the device at `path`.
pub fn assess_disk(path: &str, info: &DiskInfo, probe: &DeviceProbe) -> (r: RiskAssessment)
    ensures
        r.level == spec_risk_level(path@, *info, *probe),
        r.is_system_disk == spec_is_system_disk(path@, *probe),
        r.is_removable == info.removable,
        r.is_image == (probe.kind == DevicePathKind::ImageFile),
        r.warnings@.map_values(|s: String| s@) == spec_risk_warnings(path@, *info, *probe),
        r.write_allowed == spec_write_allowed(*info, *probe),
{
    let is_image = probe.kind == DevicePathKind::ImageFile;
    let mut warnings: Vec<String> = Vec::new();
    let mut level = if is_image {
        RiskLevel::Low
    } else {
        RiskLevel::High
    };
    let ghost w0 = warnings@.map_values(|s: String| s@);
    if !is_image && !info.removable {
        push_warning(&mut warnings, "固定式磁碟：寫入可能影響系統資料");
        level = RiskLevel::High;
    }
    let ghost w1 = warnings@.map_values(|s: String| s@);
    if info.removable {
        push_warning(&mut warnings, "可卸除媒體");
        if !is_image {
            level = RiskLevel::Medium;
        }
    }
    let ghost w2 = warnings@.map_values(|s: String| s@);
    if info.read_only {
        push_warning(&mut warnings, "裝置目前為唯讀");
        level = RiskLevel::Critical;
    }
    let ghost w3 = warnings@.map_values(|s: String| s@);
    let is_system = detect_system_disk(path, probe);
    if is_system {
        push_warning(&mut warnings, "偵測到可能為系統碟或 root 所在磁碟");
        level = RiskLevel::Critical;
    }
    let ghost w4 = warnings@.map_values(|s: String| s@);
    if probe.kind == DevicePathKind::LinuxBlockDevice && !probe.whole_disk {
        push_warning(&mut warnings, "路徑不是整顆磁碟節點，寫入已封鎖");
        level = RiskLevel::Critical;
    }
    proof {
        assert(w0 =~= Seq::<Seq<char>>::empty());
        let image = is_image;
        assert(w1 =~= w0 + warning_if(!image && !info.removable, "固定式磁碟：寫入可能影響系統資料"@));
        assert(w2 =~= w1 + warning_if(info.removable, "可卸除媒體"@));
        assert(w3 =~= w2 + warning_if(info.read_only, "裝置目前為唯讀"@));
        assert(w4 =~= w3 + warning_if(is_system, "偵測到可能為系統碟或 root 所在磁碟"@));
        assert(warnings@.map_values(|s: String| s@) =~= w4 + warning_if(
            spec_partition_node(*probe),
            "路徑不是整顆磁碟節點，寫入已封鎖"@,
        ));
        assert(w0 + warning_if(!image && !info.removable, "固定式磁碟：寫入可能影響系統資料"@)
            =~= warning_if(!image && !info.removable, "固定式磁碟：寫入可能影響系統資料"@));
    }
    let write_allowed = is_image || (probe.kind == DevicePathKind::LinuxBlockDevice
        && probe.whole_disk && !info.read_only);
    RiskAssessment {
        level,
        is_system_disk: is_system,
        is_removable: info.removable,
        is_image,
        warnings,
        write_allowed,
    }
}

/// The parts joined with `sep` between each two (`[String]::join`).
pub open spec fn join_spec(parts: Seq<Seq<char>>, sep: Seq<char>) -> Seq<char>
    decreases parts.len(),
{
    if parts.len() == 0 {
        Seq::empty()
    } else if parts.len() == 1 {
        parts[0]
    } else {
        join_spec(parts.drop_last(), sep) + sep + parts.last()
    }
}

/// Joins strings with a separator.
pub fn join(parts: &Vec<String>, sep: &str) -> (r: String)
    ensures
        r@ == join_spec(parts@.map_values(|s: String| s@), sep@),
{
    let mut r = String::new();
    let mut i: usize = 0;
    while i < parts.len()
        invariant
            i <= parts@.len(),
            r@ == join_spec(parts@.subrange(0, i as int).map_values(|s: String| s@), sep@),
        decreases parts@.len() - i,
    {
        let ghost prev = parts@.subrange(0, i as int).map_values(|s: String| s@);
        let ghost next = parts@.subrange(0, i + 1).map_values(|s: String| s@);
        proof {
            assert(next.drop_last() =~= prev);
            assert(next.last() == parts@[i as int]@);
        }
        if i > 0 {
            r.append(sep);
        }
        r.append(parts[i].as_str());
        proof {
            if i == 0 {
                assert(r@ =~= next[0]);
            }
        }
        i = i + 1;
    }
    proof {
        assert(parts@.subrange(0, parts@.len() as int) =~= parts@);
    }
    r
}

/// Why a write was refused.
#[derive(Debug)]
pub enum SafetyError {
    NotConfirmed,
    PhraseMismatch,
    BackupRequired,
    DiskIdentityMismatch,
    WriteFlagRequired,
    ImageConfirmationRequired,
    SystemDiskBlocked,
    WriteNotAllowed(String),
    RealDiskConfirmRequired,
}

/// The view of a [`SafetyError`]: the same variants, with text as
/// characters.
pub enum SafetyErrorView {
    NotConfirmed,
    PhraseMismatch,
    BackupRequired,
    DiskIdentityMismatch,
    WriteFlagRequired,
    ImageConfirmationRequired,
    SystemDiskBlocked,
    WriteNotAllowed(Seq<char>),
    RealDiskConfirmRequired,
}

impl View for SafetyError {
    type V = SafetyErrorView;

    open spec fn view(&self) -> SafetyErrorView {
        match self {
            SafetyError::NotConfirmed => SafetyErrorView::NotConfirmed,
            SafetyError::PhraseMismatch => SafetyErrorView::PhraseMismatch,
            SafetyError::BackupRequired => SafetyErrorView::BackupRequired,
            SafetyError::DiskIdentityMismatch => SafetyErrorView::DiskIdentityMismatch,
            SafetyError::WriteFlagRequired => SafetyErrorView::WriteFlagRequired,
            SafetyError::ImageConfirmationRequired => SafetyErrorView::ImageConfirmationRequired,
            SafetyError::SystemDiskBlocked => SafetyErrorView::SystemDiskBlocked,
            SafetyError::WriteNotAllowed(s) => SafetyErrorView::WriteNotAllowed(s@),
            SafetyError::RealDiskConfirmRequired => SafetyErrorView::RealDiskConfirmRequired,
        }
    }
}

/// The refusal of a write to `path`, if any: not allowed (with the joined
/// warnings), or the system disk without the accepted risk.
pub open spec fn spec_write_risk_refusal(
    path: Seq<char>,
    info: DiskInfo,
    probe: DeviceProbe,
    accept_system_disk_risk: bool,
) -> Option<SafetyErrorView> {
    if !spec_write_allowed(info, probe) {
        Some(SafetyErrorView::WriteNotAllowed(join_spec(spec_risk_warnings(path, info, probe), "; "@)))
    } else if spec_is_system_disk(path, probe) && !accept_system_disk_risk {
        Some(SafetyErrorView::SystemDiskBlocked)
    } else {
        None
    }
}

/// Assesses the device and refuses a write that the assessment forbids.
pub fn validate_write_risk(
    path: &str,
    info: &DiskInfo,
    probe: &DeviceProbe,
    accept_system_disk_risk: bool,
) -> (r: Result<RiskAssessment, SafetyError>)
    ensures
        match r {
            Ok(a) => {
                &&& spec_write_risk_refusal(path@, *info, *probe, accept_system_disk_risk) is None
                &&& a.level == spec_risk_level(path@, *info, *probe)
                &&& a.is_system_disk == spec_is_system_disk(path@, *probe)
                &&& a.is_removable == info.removable
                &&& a.is_image == (probe.kind == DevicePathKind::ImageFile)
                &&& a.warnings@.map_values(|s: String| s@) == spec_risk_warnings(
                    path@,
                    *info,
                    *probe,
                )
                &&& a.write_allowed
            },
            Err(e) => spec_write_risk_refusal(path@, *info, *probe, accept_system_disk_risk) == Some(
                e@,
            ),
        },
{
    let assessment = assess_disk(path, info, probe);
    if !assessment.write_allowed {
        return Err(SafetyError::WriteNotAllowed(join(&assessment.warnings, "; ")));
    }
    if assessment.is_system_disk && !accept_system_disk_risk {
        return Err(SafetyError::SystemDiskBlocked);
    }
    Ok(assessment)
}

/// The flags and answers a user gave for a write.
#[derive(Debug, Clone)]
pub struct ConfirmationOptions {
    pub write: bool,
    pub dry_run: bool,
    pub image_confirmed: bool,
    pub confirmation_phrase: Option<String>,
    pub backup_path: Option<String>,
    pub accept_system_disk_risk: bool,
}

/// The first check that refuses a write to `path`, or `None` when all pass:
/// the write flag without dry run; the image confirmation for an `.img`
/// file; the risk rules for a Linux block device; a backup; and the
/// confirmation phrase (which an image may omit).
pub open spec fn spec_write_refusal(
    path: Seq<char>,
    opts: ConfirmationOptions,
    info: DiskInfo,
    probe: DeviceProbe,
) -> Option<SafetyErrorView> {
    let image = spec_is_image_path(path);
    if opts.dry_run || !opts.write {
        Some(SafetyErrorView::WriteFlagRequired)
    } else if image && !opts.image_confirmed {
        Some(SafetyErrorView::ImageConfirmationRequired)
    } else if probe.kind == DevicePathKind::LinuxBlockDevice && spec_write_risk_refusal(
        path,
        info,
        probe,
        opts.accept_system_disk_risk,
    ) is Some {
        spec_write_risk_refusal(path, info, probe, opts.accept_system_disk_risk)
    } else if opts.backup_path is None {
        Some(SafetyErrorView::BackupRequired)
    } else {
        match opts.confirmation_phrase {
            Some(p) => if p@ == spec_confirmation_phrase(path) {
                None
            } else {
                Some(SafetyErrorView::PhraseMismatch)
            },
            None => if image {
                None
            } else {
                Some(SafetyErrorView::RealDiskConfirmRequired)
            },
        }
    }
}

/// The phrase a token records: the one typed, or `image` for an image
/// confirmed by flag alone.
pub open spec fn spec_token_phrase(opts: ConfirmationOptions) -> Seq<char> {
    match opts.confirmation_phrase {
        Some(p) => p@,
        None => "image"@,
    }
}

/// Runs every check a write must pass and, when all pass, issues the token
/// for the plan's disk (whatever the clock reads: a clock before the Unix
/// epoch leaves the token without a time stamp). `probe` is what the system says of the plan's disk
/// path; `plan_json` is the plan as JSON text, whose hash the token carries.
pub fn confirm_write(
    plan: &ChangePlan,
    opts: &ConfirmationOptions,
    disk_info: &DiskInfo,
    probe: &DeviceProbe,
    plan_json: &str,
) -> (r: Result<WriteToken, SafetyError>)
    ensures
        match r {
            Ok(t) => {
                &&& spec_write_refusal(plan.disk_path@, *opts, *disk_info, *probe) is None
                &&& t.disk_id@ == plan.disk_path@
                &&& opt_str(t.backup_id) == opt_str(opts.backup_path)
                &&& t.confirmation_hash@ == spec_hash_text(spec_token_phrase(*opts))
                &&& t.change_plan_hash@ == spec_hash_text(plan_json@)
            },
            Err(e) => spec_write_refusal(plan.disk_path@, *opts, *disk_info, *probe) == Some(e@),
        },
{
    let path = plan.disk_path.as_str();
    if opts.dry_run {
        return Err(SafetyError::WriteFlagRequired);
    }
    if !opts.write {
        return Err(SafetyError::WriteFlagRequired);
    }
    let is_image = is_image_path(path);
    if is_image && !opts.image_confirmed {
        return Err(SafetyError::ImageConfirmationRequired);
    }
    if probe.kind == DevicePathKind::LinuxBlockDevice {
        match validate_write_risk(path, disk_info, probe, opts.accept_system_disk_risk) {
            Ok(_) => {},
            Err(e) => {
                return Err(e);
            },
        }
    }
    if opts.backup_path.is_none() {
        return Err(SafetyError::BackupRequired);
    }
    let expected = disk_confirmation_phrase(path);
    match &opts.confirmation_phrase {
        Some(phrase) => {
            if !same_text(phrase.as_str(), expected.as_str()) {
                return Err(SafetyError::PhraseMismatch);
            }
        },
        None => {
            if !is_image {
                return Err(SafetyError::RealDiskConfirmRequired);
            }
        },
    }
    let phrase: &str = match &opts.confirmation_phrase {
        Some(p) => p.as_str(),
        None => "image",
    };
    let t = WriteToken::new(
        plan.disk_path.clone(),
        crate::model::copy_opt_string(&opts.backup_path),
        phrase,
        plan_json,
    );
    Ok(t)
}

/// The lines of a text: the pieces between `\n` characters.
pub open spec fn text_lines(s: Seq<char>) -> Seq<Seq<char>>
    decreases s.len(),
{
    match first_index_of(s, '\n') {
        None => seq![s],
        Some(i) => if 0 <= i < s.len() {
            seq![s.subrange(0, i)] + text_lines(s.subrange(i + 1, s.len() as int))
        } else {
            seq![s]
        },
    }
}

/// The first field of the first line whose second field is `/`, or empty.
pub open spec fn root_device_in(lines: Seq<Seq<char>>) -> Seq<char>
    decreases lines.len(),
{
    if lines.len() == 0 {
        Seq::empty()
    } else {
        let f = fields(lines[0]);
        if f.len() >= 2 && f[1] == "/"@ {
            f[0]
        } else {
            root_device_in(lines.drop_first())
        }
    }
}

/// The device mounted at `/` according to a mount table in the format of
/// `/proc/mounts` (device, mount point, ...), or empty when none is.
pub open spec fn spec_root_device(mounts: Seq<char>) -> Seq<char> {
    root_device_in(text_lines(mounts))
}

fn line_root_device(line: &str) -> (r: Option<String>)
    ensures
        ({
            let f = fields(line@);
            if f.len() >= 2 && f[1] == "/"@ {
                r matches Some(d) && d@ == f[0]
            } else {
                r is None
            }
        }),
{
    let f = split_fields(line);
    proof {
        reveal_strlit("/");
    }
    if f.len() >= 2 && same_text(f[1].as_str(), "/") {
        Some(f[0].clone())
    } else {
        None
    }
}

/// Finds the device mounted at `/` in the text of `/proc/mounts`.
pub fn root_device_from_mounts(mounts: &str) -> (r: String)
    ensures
        r@ == spec_root_device(mounts@),
{
    let n = mounts.unicode_len();
    let mut start: usize = 0;
    proof {
        assert(mounts@.subrange(0, n as int) =~= mounts@);
    }
    loop
        invariant
            n == mounts@.len(),
            start <= n,
            spec_root_device(mounts@) == root_device_in(text_lines(mounts@.subrange(start as int, n as int))),
        decreases n - start,
    {
        let rest = mounts.substring_char(start, n);
        match find_char(rest, '\n') {
            None => {
                let found = line_root_device(rest);
                proof {
                    assert(text_lines(rest@) == seq![rest@]);
                    assert(seq![rest@].drop_first() =~= Seq::<Seq<char>>::empty());
                    assert(root_device_in(Seq::<Seq<char>>::empty()) == Seq::<char>::empty());
                    assert(seq![rest@][0] == rest@);
                }
                let r = match found {
                    Some(d) => d,
                    None => String::new(),
                };
                proof {
                    assert(r@ == root_device_in(seq![rest@]));
                }
                return r;
            },
            Some(i) => {
                proof {
                    crate::safety::lemma_first_index_bound(rest@, '\n');
                }
                let line = rest.substring_char(0, i);
                let found = line_root_device(line);
                proof {
                    let tail = rest@.subrange(i + 1, rest@.len() as int);
                    assert(tail =~= mounts@.subrange(start + i + 1, n as int));
                    let ls = seq![rest@.subrange(0, i as int)] + text_lines(tail);
                    assert(text_lines(rest@) == ls);
                    assert(ls[0] == line@);
                    assert(ls.drop_first() =~= text_lines(tail));
                }
                match found {
                    Some(d) => {
                        return d;
                    },
                    None => {},
                }
                start = start + i + 1;
            },
        }
    }
}

/// A write is issued only with the write flag and without dry run, with a
/// backup path, and with either the typed phrase of the disk's name or, for
/// an `.img` file, the image confirmation.
pub proof fn lemma_write_needs_confirmation(
    path: Seq<char>,
    opts: ConfirmationOptions,
    info: DiskInfo,
    probe: DeviceProbe,
)
    requires
        spec_write_refusal(path, opts, info, probe) is None,
    ensures
        opts.write,
        !opts.dry_run,
        opts.backup_path is Some,
        spec_is_image_path(path) ==> opts.image_confirmed,
        match opts.confirmation_phrase {
            Some(p) => p@ == spec_confirmation_phrase(path),
            None => spec_is_image_path(path),
        },
{
}

/// No write goes to a Linux block device that the risk rules refuse: a
/// partition node, a read-only device, or the system disk without the
/// accepted risk.
pub proof fn lemma_block_device_write_respects_risk(
    path: Seq<char>,
    opts: ConfirmationOptions,
    info: DiskInfo,
    probe: DeviceProbe,
)
    requires
        spec_write_refusal(path, opts, info, probe) is None,
        probe.kind == DevicePathKind::LinuxBlockDevice,
    ensures
        probe.whole_disk,
        !info.read_only,
        spec_is_system_disk(path, probe) ==> opts.accept_system_disk_risk,
{
}

/// A partition node of a Linux block device is critical and never writable.
pub proof fn lemma_partition_node_blocked(path: Seq<char>, info: DiskInfo, probe: DeviceProbe, accept: bool)
    requires
        probe.kind == DevicePathKind::LinuxBlockDevice,
        !probe.whole_disk,
    ensures
        spec_risk_level(path, info, probe) == RiskLevel::Critical,
        !spec_write_allowed(info, probe),
        spec_write_risk_refusal(path, info, probe, accept) is Some,
{
}

/// A writable image file is low risk and may be written; an image is never
/// taken for the system disk.
pub proof fn lemma_image_low_risk(path: Seq<char>, info: DiskInfo, probe: DeviceProbe, accept: bool)
    requires
        probe.kind == DevicePathKind::ImageFile,
        !info.read_only,
    ensures
        !spec_is_system_disk(path, probe),
        spec_risk_level(path, info, probe) == RiskLevel::Low,
        spec_write_allowed(info, probe),
        spec_write_risk_refusal(path, info, probe, accept) is None,
{
}

/// A writable device that is not an image, not the system disk and not a
/// partition node is of medium risk when it is removable and of high risk
/// when it is fixed; so a removable device never ranks above a fixed one
/// that is otherwise alike.
pub proof fn lemma_removable_medium_fixed_high(path: Seq<char>, info: DiskInfo, probe: DeviceProbe)
    requires
        !info.read_only,
        probe.kind != DevicePathKind::ImageFile,
        !spec_is_system_disk(path, probe),
        probe.kind == DevicePathKind::Other || probe.whole_disk,
    ensures
        info.removable ==> spec_risk_level(path, info, probe) == RiskLevel::Medium,
        !info.removable ==> spec_risk_level(path, info, probe) == RiskLevel::High,
        spec_risk_level(path, info, probe) != RiskLevel::Low,
        spec_risk_level(path, info, probe) != RiskLevel::Critical,
{
}

/// A read-only device is critical, whatever else holds.
pub proof fn lemma_read_only_critical(path: Seq<char>, info: DiskInfo, probe: DeviceProbe)
    requires
        info.read_only,
    ensures
        spec_risk_level(path, info, probe) == RiskLevel::Critical,
        probe.kind != DevicePathKind::ImageFile ==> !spec_write_allowed(info, probe),
{
}

} // verus!
