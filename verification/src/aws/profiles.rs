//! The profiles and regions that the dashboard offers.

use crate::text::{
    chars_of, find_first, insert_point, insert_sorted, is_space,
    lemma_first_index, lemma_insert_point_bound, occurs_at, sorted, split_on, split_seq,
    string_of, texts, whitespace,
};
use vstd::prelude::*;

verus! {

/// The regions that the dashboard offers, in the order in which it lists
/// them.
pub open spec fn common_regions() -> Seq<Seq<char>> {
    seq![
        "us-east-1"@,
        "us-east-2"@,
        "us-west-1"@,
        "us-west-2"@,
        "af-south-1"@,
        "ap-east-1"@,
        "ap-south-1"@,
        "ap-south-2"@,
        "ap-southeast-1"@,
        "ap-southeast-2"@,
        "ap-southeast-3"@,
        "ap-southeast-4"@,
        "ap-northeast-1"@,
        "ap-northeast-2"@,
        "ap-northeast-3"@,
        "ca-central-1"@,
        "eu-central-1"@,
        "eu-central-2"@,
        "eu-west-1"@,
        "eu-west-2"@,
        "eu-west-3"@,
        "eu-south-1"@,
        "eu-south-2"@,
        "eu-north-1"@,
        "me-south-1"@,
        "me-central-1"@,
        "sa-east-1"@,
    ]
}

/// Lists the regions that the dashboard offers.
pub fn list_regions() -> (regions: Vec<String>)
    ensures
        texts(regions@) == common_regions(),
{
    let mut regions: Vec<String> = Vec::new();
    regions.push("us-east-1".to_owned());
    regions.push("us-east-2".to_owned());
    regions.push("us-west-1".to_owned());
    regions.push("us-west-2".to_owned());
    regions.push("af-south-1".to_owned());
    regions.push("ap-east-1".to_owned());
    regions.push("ap-south-1".to_owned());
    regions.push("ap-south-2".to_owned());
    regions.push("ap-southeast-1".to_owned());
    regions.push("ap-southeast-2".to_owned());
    regions.push("ap-southeast-3".to_owned());
    regions.push("ap-southeast-4".to_owned());
    regions.push("ap-northeast-1".to_owned());
    regions.push("ap-northeast-2".to_owned());
    regions.push("ap-northeast-3".to_owned());
    regions.push("ca-central-1".to_owned());
    regions.push("eu-central-1".to_owned());
    regions.push("eu-central-2".to_owned());
    regions.push("eu-west-1".to_owned());
    regions.push("eu-west-2".to_owned());
    regions.push("eu-west-3".to_owned());
    regions.push("eu-south-1".to_owned());
    regions.push("eu-south-2".to_owned());
    regions.push("eu-north-1".to_owned());
    regions.push("me-south-1".to_owned());
    regions.push("me-central-1".to_owned());
    regions.push("sa-east-1".to_owned());
    assert(texts(regions@) =~= common_regions());
    regions
}


/// `s` without its leading white space.
pub open spec fn trim_front(s: Seq<char>) -> Seq<char>
    decreases s.len(),
{
    if s.len() > 0 && is_space(s[0]) {
        trim_front(s.drop_first())
    } else {
        s
    }
}

/// `s` without its trailing white space.
pub open spec fn trim_back(s: Seq<char>) -> Seq<char>
    decreases s.len(),
{
    if s.len() > 0 && is_space(s.last()) {
        trim_back(s.drop_last())
    } else {
        s
    }
}

/// `s` without its leading and trailing white space.
pub open spec fn trimmed(s: Seq<char>) -> Seq<char> {
    trim_back(trim_front(s))
}

/// The name of the section that a line opens: what stands between the
/// brackets of a line that, without the white space around it, begins with
/// `[` and ends with `]`. Other lines open no section.
pub open spec fn section_name(line: Seq<char>) -> Option<Seq<char>> {
    let t = trimmed(line);
    if t.len() >= 2 && t[0] == '[' && t.last() == ']' {
        Some(t.subrange(1, t.len() - 1))
    } else {
        None
    }
}

/// The profile that a section of the configuration file is for: the
/// section's name without a leading `profile `.
pub open spec fn without_prefix(section: Seq<char>) -> Seq<char> {
    if occurs_at("profile "@, section, 0) {
        section.skip("profile "@.len() as int)
    } else {
        section
    }
}

/// The profiles that the lines name, in order. With `strip`, the section
/// names are those of the configuration file, where all profiles but the
/// default one are written with a leading `profile `.
pub open spec fn named_profiles(lines: Seq<Seq<char>>, strip: bool) -> Seq<Seq<char>>
    decreases lines.len(),
{
    if lines.len() == 0 {
        Seq::empty()
    } else {
        named_profiles(lines.drop_last(), strip) + match section_name(lines.last()) {
            Some(name) => seq![
                if strip {
                    without_prefix(name)
                } else {
                    name
                },
            ],
            None => Seq::empty(),
        }
    }
}

/// The profiles that a file names, or none for a file that is not there.
pub open spec fn profiles_in(content: Option<Seq<char>>, strip: bool) -> Seq<Seq<char>> {
    match content {
        Some(text) => named_profiles(split_seq(text, '\n'), strip),
        None => Seq::empty(),
    }
}

/// All profiles there are: `default`, those of the credentials file, and
/// those of the configuration file.
pub open spec fn all_profiles(credentials: Option<Seq<char>>, config: Option<Seq<char>>) -> Seq<
    Seq<char>,
> {
    seq!["default"@] + profiles_in(credentials, false) + profiles_in(config, true)
}

/// The texts are in dictionary order, and none occurs twice.
pub open spec fn strictly_sorted(s: Seq<Seq<char>>) -> bool {
    sorted(s) && s.no_duplicates()
}

/// The text of an optional string slice.
pub open spec fn opt_str(s: Option<&str>) -> Option<Seq<char>> {
    match s {
        Some(t) => Some(t@),
        None => None,
    }
}

fn trim_bounds(v: &Vec<char>) -> (r: (usize, usize))
    ensures
        r.0 <= r.1 <= v.len(),
        trimmed(v@) == v@.subrange(r.0 as int, r.1 as int),
{
    let mut i: usize = 0;
    proof {
        assert(v@.skip(0) == v@);
    }
    while i < v.len() && whitespace(v[i])
        invariant
            i <= v.len(),
            trim_front(v@) == trim_front(v@.skip(i as int)),
        decreases v.len() - i,
    {
        proof {
            assert(v@.skip(i as int)[0] == v@[i as int]);
            assert(v@.skip(i as int).drop_first() == v@.skip(i + 1));
        }
        i += 1;
    }
    proof {
        if i < v.len() {
            assert(v@.skip(i as int)[0] == v@[i as int]);
        }
        assert(trim_front(v@) == v@.skip(i as int));
        assert(v@.skip(i as int) == v@.subrange(i as int, v@.len() as int));
    }
    let mut j: usize = v.len();
    while j > i && whitespace(v[j - 1])
        invariant
            i <= j <= v.len(),
            trim_back(v@.skip(i as int)) == trim_back(v@.subrange(i as int, j as int)),
        decreases j,
    {
        proof {
            assert(v@.subrange(i as int, j as int).last() == v@[j - 1]);
            assert(v@.subrange(i as int, j as int).drop_last() == v@.subrange(i as int, j - 1));
        }
        j -= 1;
    }
    proof {
        if j > i {
            assert(v@.subrange(i as int, j as int).last() == v@[j - 1]);
        }
    }
    (i, j)
}

fn section_of(line: &str, strip: bool) -> (r: Option<String>)
    ensures
        match r {
            Some(name) => section_name(line@) matches Some(section) && name@ == if strip {
                without_prefix(section)
            } else {
                section
            },
            None => section_name(line@).is_none(),
        },
{
    let v = chars_of(line);
    let (from, to) = trim_bounds(&v);
    if to - from < 2 || v[from] != '[' || v[to - 1] != ']' {
        proof {
            let t = v@.subrange(from as int, to as int);
            if t.len() >= 2 {
                assert(t[0] == v@[from as int]);
                assert(t.last() == v@[to - 1]);
            }
        }
        return None;
    }
    let ghost t = v@.subrange(from as int, to as int);
    let ghost section = t.subrange(1, t.len() - 1);
    proof {
        assert(t[0] == v@[from as int]);
        assert(t.last() == v@[to - 1]);
        assert(section == v@.subrange(from + 1, to - 1));
    }
    let prefix = chars_of("profile ");
    let mut start: usize = from + 1;
    if strip && prefix.len() <= to - 1 - start {
        let mut k: usize = 0;
        while k < prefix.len() && v[start + k] == prefix[k]
            invariant
                k <= prefix.len(),
                start + prefix.len() <= to - 1,
                to <= v.len(),
                forall|j: int| 0 <= j < k ==> v@[start + j] == prefix@[j],
            decreases prefix.len() - k,
        {
            k += 1;
        }
        if k == prefix.len() {
            proof {
                assert(section.subrange(0, prefix@.len() as int) =~= prefix@);
                assert(occurs_at(prefix@, section, 0));
                assert(section.skip(prefix@.len() as int) == v@.subrange(
                    start + prefix@.len(),
                    to - 1,
                ));
            }
            start = start + prefix.len();
        } else {
            proof {
                assert(section.subrange(0, prefix@.len() as int)[k as int] != prefix@[k as int]);
            }
        }
    } else {
        proof {
            if strip {
                assert(!occurs_at(prefix@, section, 0));
            }
        }
    }
    Some(string_of(&v, start, to - 1))
}

/// A text is among those of a sequence with one more text put in exactly
/// where it is the new text or was there before.
proof fn lemma_insert_contains(s: Seq<Seq<char>>, at: int, x: Seq<char>, y: Seq<char>)
    requires
        0 <= at <= s.len(),
    ensures
        s.insert(at, x).contains(y) <==> s.contains(y) || y == x,
{
    let t = s.insert(at, x);
    if t.contains(y) {
        let i = choose|i: int| 0 <= i < t.len() && t[i] == y;
        if i < at {
            assert(s[i] == y);
        } else if i > at {
            assert(s[i - 1] == y);
        }
    }
    if s.contains(y) {
        let i = choose|i: int| 0 <= i < s.len() && s[i] == y;
        if i < at {
            assert(t[i] == y);
        } else {
            assert(t[i + 1] == y);
        }
    }
    if y == x {
        assert(t[at] == y);
    }
}

/// Putting a new text into a sequence without duplicates leaves it without
/// duplicates.
proof fn lemma_insert_no_duplicates(s: Seq<Seq<char>>, at: int, x: Seq<char>)
    requires
        0 <= at <= s.len(),
        s.no_duplicates(),
        !s.contains(x),
    ensures
        s.insert(at, x).no_duplicates(),
{
    let t = s.insert(at, x);
    assert forall|i: int, j: int| 0 <= i < t.len() && 0 <= j < t.len() && i != j implies t[i]
        != t[j] by {
        let si = if i < at {
            i
        } else {
            i - 1
        };
        let sj = if j < at {
            j
        } else {
            j - 1
        };
        if i == at {
            assert(t[j] == s[sj]);
            assert(s.contains(s[sj]));
        } else if j == at {
            assert(t[i] == s[si]);
            assert(s.contains(s[si]));
        } else {
            assert(t[i] == s[si]);
            assert(t[j] == s[sj]);
        }
    }
}

fn add_profile(names: &mut Vec<String>, name: String)
    requires
        strictly_sorted(texts(old(names)@)),
    ensures
        strictly_sorted(texts(final(names)@)),
        forall|n: Seq<char>| #[trigger]
            texts(final(names)@).contains(n) <==> texts(old(names)@).contains(n) || n == name@,
{
    let ghost before = texts(names@);
    proof {
        lemma_first_index(before, name@);
    }
    match find_first(names, name.as_str()) {
        Some(i) => {
            proof {
                assert(before.contains(name@));
            }
        },
        None => {
            insert_sorted(names, name);
            proof {
                lemma_insert_point_bound(before, name@);
                let at = insert_point(before, name@) as int;
                assert(!before.contains(name@));
                lemma_insert_no_duplicates(before, at, name@);
                assert forall|n: Seq<char>| #[trigger]
                    texts(names@).contains(n) <==> before.contains(n) || n == name@ by {
                    lemma_insert_contains(before, at, name@, n);
                }
            }
        },
    }
}

fn add_profiles_of(names: &mut Vec<String>, content: &str, strip: bool)
    requires
        strictly_sorted(texts(old(names)@)),
    ensures
        strictly_sorted(texts(final(names)@)),
        forall|n: Seq<char>| #[trigger]
            texts(final(names)@).contains(n) <==> texts(old(names)@).contains(n) || profiles_in(
                Some(content@),
                strip,
            ).contains(n),
{
    let lines = split_on(content, '\n');
    let ghost before = texts(names@);
    let ghost all = texts(lines@);
    let mut i: usize = 0;
    proof {
        assert(all.take(0) =~= Seq::<Seq<char>>::empty());
    }
    while i < lines.len()
        invariant
            i <= lines.len(),
            all == texts(lines@),
            strictly_sorted(texts(names@)),
            forall|n: Seq<char>| #[trigger]
                texts(names@).contains(n) <==> before.contains(n) || named_profiles(
                    all.take(i as int),
                    strip,
                ).contains(n),
        decreases lines.len() - i,
    {
        let ghost so_far = named_profiles(all.take(i as int), strip);
        let ghost held = texts(names@);
        proof {
            assert(all.take(i + 1).drop_last() =~= all.take(i as int));
            assert(all.take(i + 1).last() == lines@[i as int]@);
        }
        match section_of(lines[i].as_str(), strip) {
            Some(name) => {
                let ghost added = name@;
                add_profile(names, name);
                proof {
                    let next = named_profiles(all.take(i + 1), strip);
                    assert(next == so_far + seq![added]);
                    assert forall|n: Seq<char>| #[trigger]
                        texts(names@).contains(n) <==> before.contains(n) || next.contains(n) by {
                        assert(held.contains(n) <==> before.contains(n) || so_far.contains(n));
                        if so_far.contains(n) {
                            let k = choose|k: int| 0 <= k < so_far.len() && so_far[k] == n;
                            assert(next[k] == n);
                        }
                        if n == added {
                            assert(next[so_far.len() as int] == n);
                        }
                        if next.contains(n) {
                            let k = choose|k: int| 0 <= k < next.len() && next[k] == n;
                            if k < so_far.len() {
                                assert(so_far[k] == n);
                            }
                        }
                    }
                }
            },
            None => {
                proof {
                    assert(named_profiles(all.take(i + 1), strip) =~= so_far);
                }
            },
        }
        i += 1;
    }
    proof {
        assert(all.take(i as int) =~= all);
    }
}

/// Lists the profiles that the credentials file and the configuration file
/// name, together with `default`, in dictionary order and each once. A file
/// that could not be read is passed as nothing.
pub fn list_profiles(credentials: Option<&str>, config: Option<&str>) -> (profiles: Vec<String>)
    ensures
        strictly_sorted(texts(profiles@)),
        forall|n: Seq<char>| #[trigger]
            texts(profiles@).contains(n) <==> all_profiles(
                opt_str(credentials),
                opt_str(config),
            ).contains(n),
{
    let mut profiles: Vec<String> = Vec::new();
    profiles.push("default".to_owned());
    let ghost first = texts(profiles@);
    proof {
        assert(first =~= seq!["default"@]);
    }
    match credentials {
        Some(content) => {
            add_profiles_of(&mut profiles, content, false);
        },
        None => {},
    }
    let ghost second = texts(profiles@);
    match config {
        Some(content) => {
            add_profiles_of(&mut profiles, content, true);
        },
        None => {},
    }
    proof {
        let a = profiles_in(opt_str(credentials), false);
        let b = profiles_in(opt_str(config), true);
        let all = all_profiles(opt_str(credentials), opt_str(config));
        assert forall|n: Seq<char>| #[trigger]
            texts(profiles@).contains(n) <==> all.contains(n) by {
            assert(second.contains(n) <==> first.contains(n) || a.contains(n));
            assert(texts(profiles@).contains(n) <==> second.contains(n) || b.contains(n));
            if first.contains(n) {
                assert(n == "default"@);
                assert(all[0] == n);
            }
            if a.contains(n) {
                let k = choose|k: int| 0 <= k < a.len() && a[k] == n;
                assert(all[1 + k] == n);
            }
            if b.contains(n) {
                let k = choose|k: int| 0 <= k < b.len() && b[k] == n;
                assert(all[1 + a.len() + k] == n);
            }
            if all.contains(n) {
                let k = choose|k: int| 0 <= k < all.len() && all[k] == n;
                if k == 0 {
                    assert(first[0] == n);
                } else if k < 1 + a.len() {
                    assert(a[k - 1] == n);
                } else {
                    assert(b[k - 1 - a.len()] == n);
                }
            }
        }
    }
    profiles
}

} // verus!
