//! Note privacy: `kf-private` frontmatter and workspace-relative paths.
use vstd::prelude::*;

use crate::text::{
    chars_of, contains, find_from, join, line_ranges, lines, matches_at, pieces, push_char,
    push_str, ranges_in, split, split_ranges, starts_with, string_of_range, trim, trim_range,
    trim_start, trim_start_range, trim_str,
};

verus! {

/// A path inside the vault: after trimming it is not empty, does not start
/// with `/`, holds no `\`, and none of its `/`-separated segments is empty,
/// `.` or `..`.
pub open spec fn valid_rel_path(rel_path: Seq<char>) -> bool {
    let r = trim(rel_path);
    &&& r.len() > 0
    &&& !starts_with(r, "/"@)
    &&& !contains(r, "\\"@)
    &&& forall|k: int|
        0 <= k < split(r, "/"@).len() ==> {
            let seg = #[trigger] split(r, "/"@)[k];
            seg.len() > 0 && seg != "."@ && seg != ".."@
        }
}

pub const INVALID_NOTE_PATH: &'static str = "Invalid note path.";

/// Checks that `rel_path` is a vault-relative path that cannot escape the
/// vault.
pub fn validate_workspace_rel_path(rel_path: &str) -> (r: Result<(), String>)
    ensures
        r is Ok <==> valid_rel_path(rel_path@),
        r is Err ==> r->Err_0@ == INVALID_NOTE_PATH@,
{
    let rel = trim_str(rel_path);
    let v = chars_of(rel.as_str());
    let slash = chars_of("/");
    let backslash = chars_of("\\");
    proof {
        reveal_strlit("/");
        reveal_strlit("\\");
        reveal_strlit(".");
        reveal_strlit("..");
        assert(v@.skip(0) =~= v@);
    }
    if v.len() == 0 {
        return Err(to_err());
    }
    if matches_at(&v, 0, &slash) || matches_at(&v, 0, &backslash) {
        return Err(to_err());
    }
    if find_from(&v, 0, &backslash).is_some() {
        return Err(to_err());
    }
    let segs = split_ranges(&v, &slash);
    let mut k: usize = 0;
    while k < segs.len()
        invariant
            ranges_in(v@, segs@),
            pieces(v@, segs@) == split(v@, "/"@),
            slash@ == "/"@,
            v@ == trim(rel_path@),
            k <= segs.len(),
            forall|j: int|
                0 <= j < k ==> {
                    let seg = #[trigger] split(v@, "/"@)[j];
                    seg.len() > 0 && seg != "."@ && seg != ".."@
                },
        decreases segs.len() - k,
    {
        proof {
            reveal_strlit(".");
            reveal_strlit("..");
        }
        let (a, b) = segs[k];
        let ghost seg = v@.subrange(a as int, b as int);
        assert(split(v@, "/"@)[k as int] == seg);
        if a == b {
            return Err(to_err());
        }
        if b - a == 1 && v[a] == '.' {
            assert(seg =~= "."@);
            return Err(to_err());
        }
        if b - a == 2 && v[a] == '.' && v[a + 1] == '.' {
            assert(seg =~= ".."@);
            return Err(to_err());
        }
        proof {
            if seg == "."@ {
                assert(seg.len() == 1 && seg[0] == '.');
            }
            if seg == ".."@ {
                assert(seg.len() == 2 && seg[0] == '.' && seg[1] == '.');
            }
        }
        k += 1;
    }
    Ok(())
}

fn to_err() -> (r: String)
    ensures
        r@ == INVALID_NOTE_PATH@,
{
    crate::text::to_owned_str(INVALID_NOTE_PATH)
}

/// Index of the first line whose trimmed text is `---`, or -1.
pub open spec fn first_fence(ls: Seq<Seq<char>>) -> int
    decreases ls.len(),
{
    if ls.len() == 0 {
        -1
    } else if trim(ls[0]) == "---"@ {
        0
    } else {
        let r = first_fence(ls.drop_first());
        if r < 0 {
            -1
        } else {
            r + 1
        }
    }
}

proof fn lemma_first_fence(ls: Seq<Seq<char>>, i: int)
    requires
        0 <= i <= ls.len(),
        forall|j: int| 0 <= j < i ==> trim(#[trigger] ls[j]) != "---"@,
    ensures
        i < ls.len() && trim(ls[i]) == "---"@ ==> first_fence(ls) == i,
        i == ls.len() ==> first_fence(ls) == -1,
    decreases i,
{
    if i > 0 {
        assert(forall|j: int| 0 <= j < i - 1 ==> ls.drop_first()[j] == ls[j + 1]);
        lemma_first_fence(ls.drop_first(), i - 1);
    }
}

/// The YAML between an opening `---` line and the next `---` line:
/// `Ok(None)` without an opening line, `Err(())` when it is never closed.
/// The first line opens only when its trimmed text is exactly `---`.
pub open spec fn frontmatter_yaml(src: Seq<char>) -> Result<Option<Seq<char>>, ()> {
    let s = trim_start(src);
    if !starts_with(s, "---"@) {
        Ok(None)
    } else {
        let ls = lines(s);
        if ls.len() == 0 || trim(ls[0]) != "---"@ {
            Ok(None)
        } else {
            let k = first_fence(ls.skip(1));
            if k < 0 {
                Err(())
            } else {
                Ok(Some(join(ls.subrange(1, 1 + k), "\n"@)))
            }
        }
    }
}

/// Lines `ls` open a frontmatter with a `---` line whose first closing
/// `---` line is line `c`.
pub open spec fn fence_closes_at(ls: Seq<Seq<char>>, c: int) -> bool {
    &&& 1 <= c < ls.len()
    &&& trim(ls[0]) == "---"@
    &&& trim(ls[c]) == "---"@
    &&& forall|j: int| 1 <= j < c ==> trim(#[trigger] ls[j]) != "---"@
}

/// The first `---` line of `ls` is line `c` when no earlier line is one.
proof fn lemma_first_fence_at(ls: Seq<Seq<char>>, c: int)
    requires
        0 <= c < ls.len(),
        trim(ls[c]) == "---"@,
        forall|j: int| 0 <= j < c ==> trim(#[trigger] ls[j]) != "---"@,
    ensures
        first_fence(ls) == c,
    decreases c,
{
    if c > 0 {
        let t = ls.drop_first();
        assert forall|j: int| 0 <= j < c - 1 implies trim(#[trigger] t[j]) != "---"@ by {
            assert(t[j] == ls[j + 1]);
        }
        assert(t[c - 1] == ls[c]);
        lemma_first_fence_at(t, c - 1);
        assert(trim(ls[0]) != "---"@);
    }
}

/// A closed frontmatter yields every line between its opening and its
/// closing `---` line, joined with newlines, as its YAML (so a key on any of
/// those lines is read).
pub proof fn lemma_frontmatter_holds_every_line(src: Seq<char>, c: int)
    requires
        starts_with(trim_start(src), "---"@),
        fence_closes_at(lines(trim_start(src)), c),
    ensures
        frontmatter_yaml(src) == Ok::<Option<Seq<char>>, ()>(
            Some(join(lines(trim_start(src)).subrange(1, c), "\n"@)),
        ),
{
    let ls = lines(trim_start(src));
    let t = ls.skip(1);
    assert forall|j: int| 0 <= j < c - 1 implies trim(#[trigger] t[j]) != "---"@ by {
        assert(t[j] == ls[j + 1]);
    }
    assert(t[c - 1] == ls[c]);
    lemma_first_fence_at(t, c - 1);
}

/// Extracts the YAML frontmatter of a Markdown text.
pub fn split_frontmatter_yaml_owned(src: &str) -> (r: Result<Option<String>, ()>)
    ensures
        match r {
            Ok(Some(y)) => frontmatter_yaml(src@) == Ok::<Option<Seq<char>>, ()>(Some(y@)),
            Ok(None) => frontmatter_yaml(src@) == Ok::<Option<Seq<char>>, ()>(None),
            Err(()) => frontmatter_yaml(src@) == Err::<Option<Seq<char>>, ()>(()),
        },
        forall|c: int|
            starts_with(trim_start(src@), "---"@) && #[trigger] fence_closes_at(lines(trim_start(src@)), c)
                ==> (r matches Ok(Some(y)) && y@ == join(lines(trim_start(src@)).subrange(1, c), "\n"@)),
{
    proof {
        assert forall|c: int|
            starts_with(trim_start(src@), "---"@) && #[trigger] fence_closes_at(lines(trim_start(src@)), c)
                implies frontmatter_yaml(src@) == Ok::<Option<Seq<char>>, ()>(
                Some(join(lines(trim_start(src@)).subrange(1, c), "\n"@)),
            ) by {
            lemma_frontmatter_holds_every_line(src@, c);
        }
    }
    let v0 = chars_of(src);
    let st = trim_start_range(&v0, 0, v0.len());
    assert(v0@.subrange(0, v0@.len() as int) =~= v0@);
    let v = crate::text::copy_range(&v0, st, v0.len());
    let ghost s = trim_start(src@);
    assert(v@ =~= s);
    let dashes = chars_of("---");
    proof {
        reveal_strlit("---");
        reveal_strlit("\n");
        assert(v@.skip(0) =~= v@);
    }
    if !matches_at(&v, 0, &dashes) {
        return Ok(None);
    }
    let ls = line_ranges(&v);
    let ghost lsv = lines(v@);
    if ls.len() == 0 {
        return Ok(None);
    }
    let (a0, b0) = ls[0];
    let (ta, tb) = trim_range(&v, a0, b0);
    assert(lsv[0] == v@.subrange(a0 as int, b0 as int));
    if !(tb - ta == 3 && v[ta] == '-' && v[ta + 1] == '-' && v[ta + 2] == '-') {
        proof {
            let t = trim(lsv[0]);
            assert(t == v@.subrange(ta as int, tb as int));
            if t == "---"@ {
                assert(t.len() == 3 && t[0] == '-' && t[1] == '-' && t[2] == '-');
            }
        }
        return Ok(None);
    }
    proof {
        assert(trim(lsv[0]) =~= "---"@);
    }
    let ghost rest = lsv.skip(1);
    let mut out = String::new();
    let mut k: usize = 1;
    while k < ls.len()
        invariant
            ranges_in(v@, ls@),
            pieces(v@, ls@) == lsv,
            lsv.len() == ls@.len(),
            rest == lsv.skip(1),
            v@ == trim_start(src@),
            starts_with(v@, "---"@),
            lsv == lines(v@),
            trim(lsv[0]) == "---"@,
            1 <= k <= ls.len(),
            forall|j: int| 0 <= j < k - 1 ==> trim(#[trigger] rest[j]) != "---"@,
            out@ == join(lsv.subrange(1, k as int), "\n"@),
            forall|c: int|
                starts_with(trim_start(src@), "---"@) && #[trigger] fence_closes_at(lines(trim_start(src@)), c)
                    ==> frontmatter_yaml(src@) == Ok::<Option<Seq<char>>, ()>(
                    Some(join(lines(trim_start(src@)).subrange(1, c), "\n"@)),
                ),
        decreases ls.len() - k,
    {
        proof {
            reveal_strlit("---");
            reveal_strlit("\n");
            assert("\n"@ =~= seq!['\n']);
        }
        let (a, b) = ls[k];
        let (ta, tb) = trim_range(&v, a, b);
        proof {
            assert(lsv[k as int] == v@.subrange(a as int, b as int));
            assert(rest[k - 1] == lsv[k as int]);
        }
        if tb - ta == 3 && v[ta] == '-' && v[ta + 1] == '-' && v[ta + 2] == '-' {
            proof {
                assert(trim(rest[k - 1]) =~= "---"@);
                lemma_first_fence(rest, k - 1);
            }
            return Ok(Some(out));
        }
        proof {
            let t = trim(rest[k - 1]);
            if t == "---"@ {
                assert(t.len() == 3 && t[0] == '-' && t[1] == '-' && t[2] == '-');
            }
        }
        let line = string_of_range(&v, a, b);
        proof {
            let sub = lsv.subrange(1, k + 1);
            assert(sub.drop_last() =~= lsv.subrange(1, k as int));
            assert(sub.last() == line@);
            if k == 1 {
                assert(out@ =~= seq![]);
            }
        }
        if k > 1 {
            push_char(&mut out, '\n');
        }
        push_str(&mut out, line.as_str());
        proof {
            if k == 1 {
                assert(lsv.subrange(1, 2) =~= seq![line@]);
                assert(out@ =~= line@);
            } else {
                assert(out@ =~= join(lsv.subrange(1, k as int), "\n"@) + "\n"@ + line@);
            }
        }
        k += 1;
    }
    proof {
        lemma_first_fence(rest, rest.len() as int);
    }
    Err(())
}

/// What a note's frontmatter says about privacy before its YAML is read.
pub enum FrontmatterPrivacy {
    /// No frontmatter, or an empty one: not private.
    Public,
    /// An opening `---` without a closing one: treated as private.
    Private,
    /// The trimmed YAML text, whose `kf-private` key decides.
    Yaml(String),
}

/// Classifies a note by its frontmatter; `Yaml(t)` carries the trimmed
/// YAML when it is not empty.
pub fn frontmatter_privacy(markdown: &str) -> (r: FrontmatterPrivacy)
    ensures
        match r {
            FrontmatterPrivacy::Public => frontmatter_yaml(markdown@) == Ok::<
                Option<Seq<char>>,
                (),
            >(None) || exists|y: Seq<char>|
                frontmatter_yaml(markdown@) == Ok::<Option<Seq<char>>, ()>(Some(y)) && trim(y).len()
                    == 0,
            FrontmatterPrivacy::Private => frontmatter_yaml(markdown@) == Err::<
                Option<Seq<char>>,
                (),
            >(()),
            FrontmatterPrivacy::Yaml(t) => exists|y: Seq<char>|
                frontmatter_yaml(markdown@) == Ok::<Option<Seq<char>>, ()>(Some(y)) && t@ == trim(
                    y,
                ) && t@.len() > 0,
        },
{
    match split_frontmatter_yaml_owned(markdown) {
        Ok(None) => FrontmatterPrivacy::Public,
        Err(()) => FrontmatterPrivacy::Private,
        Ok(Some(y)) => {
            let t = trim_str(y.as_str());
            if t.unicode_len() == 0 {
                FrontmatterPrivacy::Public
            } else {
                FrontmatterPrivacy::Yaml(t)
            }
        },
    }
}

/// What the YAML root holds under the `kf-private` key.
pub enum KfPrivateValue {
    /// The YAML does not parse.
    Unparsable,
    /// The root is not a mapping.
    NotMapping,
    /// The root is a mapping without the key.
    Missing,
    /// The key holds a boolean.
    Bool(bool),
    /// The key holds something else.
    OtherType,
}

/// Private unless the YAML is a mapping whose `kf-private` is absent or
/// `false`; anything unexpected counts as private.
pub open spec fn kf_private_of(v: KfPrivateValue) -> bool {
    match v {
        KfPrivateValue::Missing => false,
        KfPrivateValue::Bool(b) => b,
        _ => true,
    }
}

/// Decides privacy from what the YAML root holds under `kf-private`.
pub fn is_kf_private_from_root_value(v: &KfPrivateValue) -> (r: bool)
    ensures
        r == kf_private_of(*v),
{
    match v {
        KfPrivateValue::Missing => false,
        KfPrivateValue::Bool(b) => *b,
        _ => true,
    }
}

/// The frontmatter key that marks a note private.
pub const KF_PRIVATE_KEY: &'static str = "kf-private";

/// What serde_yaml reads under the string key `key` at the root of the
/// YAML text `yaml`.
pub uninterp spec fn yaml_root_value_of(yaml: Seq<char>, key: Seq<char>) -> KfPrivateValue;

/// Parses `yaml` with `serde_yaml::from_str::<serde_yaml::Value>` and reads
/// the root: `Value::as_mapping`, then `Mapping::get` of the string key
/// `key`; each outcome is converted to its `KfPrivateValue` variant. The
/// result is a function of the two texts, named `yaml_root_value_of`;
/// nothing more of the YAML grammar is stated.
#[verifier::external_body]
fn yaml_root_value(yaml: &str, key: &str) -> (r: KfPrivateValue)
    ensures
        r == yaml_root_value_of(yaml@, key@),
{
    match serde_yaml::from_str::<serde_yaml::Value>(yaml) {
        Err(_) => KfPrivateValue::Unparsable,
        Ok(v) => match v.as_mapping() {
            None => KfPrivateValue::NotMapping,
            Some(m) => match m.get(&serde_yaml::Value::String(key.to_string())) {
                None => KfPrivateValue::Missing,
                Some(serde_yaml::Value::Bool(b)) => KfPrivateValue::Bool(*b),
                Some(_) => KfPrivateValue::OtherType,
            },
        },
    }
}

/// Whether a note counts as `kf-private`: no frontmatter or an empty one is
/// public, an unclosed one is private, otherwise the YAML decides.
pub open spec fn treat_as_private(markdown: Seq<char>) -> bool {
    match frontmatter_yaml(markdown) {
        Ok(None) => false,
        Err(()) => true,
        Ok(Some(y)) => if trim(y).len() == 0 {
            false
        } else {
            kf_private_of(yaml_root_value_of(trim(y), KF_PRIVATE_KEY@))
        },
    }
}

/// Decides from a note's text whether it must not be sent out in full.
pub fn markdown_treat_as_kf_private(markdown: &str) -> (r: bool)
    ensures
        r == treat_as_private(markdown@),
{
    match frontmatter_privacy(markdown) {
        FrontmatterPrivacy::Public => false,
        FrontmatterPrivacy::Private => true,
        FrontmatterPrivacy::Yaml(t) => {
            let v = yaml_root_value(t.as_str(), KF_PRIVATE_KEY);
            is_kf_private_from_root_value(&v)
        },
    }
}

} // verus!
