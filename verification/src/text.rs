use vstd::prelude::*;
use vstd::string::*;

verus! {

/// ASCII lower-casing of one character; every other character is kept.
pub open spec fn ascii_lower(c: char) -> char {
    if 'A' <= c && c <= 'Z' {
        ((c as u32) + 32) as char
    } else {
        c
    }
}

pub open spec fn ascii_lowercase(s: Seq<char>) -> Seq<char> {
    s.map_values(|c: char| ascii_lower(c))
}

/// Unicode `White_Space`, the characters `char::is_whitespace` accepts.
pub open spec fn is_space_char(c: char) -> bool {
    let u = c as u32;
    ||| 0x09 <= u <= 0x0d
    ||| u == 0x20
    ||| u == 0x85
    ||| u == 0xa0
    ||| u == 0x1680
    ||| 0x2000 <= u <= 0x200a
    ||| u == 0x2028
    ||| u == 0x2029
    ||| u == 0x202f
    ||| u == 0x205f
    ||| u == 0x3000
}

pub fn is_space(c: char) -> (b: bool)
    ensures
        b == is_space_char(c),
{
    let u = c as u32;
    (0x09 <= u && u <= 0x0d) || u == 0x20 || u == 0x85 || u == 0xa0 || u == 0x1680 || (0x2000
        <= u && u <= 0x200a) || u == 0x2028 || u == 0x2029 || u == 0x202f || u == 0x205f || u
        == 0x3000
}

/// `i` is the first position of `c` in `s`.
pub open spec fn is_first_index(s: Seq<char>, c: char, i: int) -> bool {
    &&& 0 <= i < s.len()
    &&& s[i] == c
    &&& forall|j: int| 0 <= j < i ==> s[j] != c
}

/// The characters of a string, as a vector.
pub fn chars_of(s: &str) -> (v: Vec<char>)
    ensures
        v@ == s@,
{
    let n = s.unicode_len();
    let mut v: Vec<char> = Vec::new();
    let mut i: usize = 0;
    while i < n
        invariant
            n == s@.len(),
            i <= n,
            v@ == s@.subrange(0, i as int),
        decreases n - i,
    {
        v.push(s.get_char(i));
        i += 1;
        assert(v@ =~= s@.subrange(0, i as int));
    }
    assert(v@ =~= s@);
    v
}

/// Whether two names are the same: exactly, or without regard to ASCII
/// case when `fold` is set.
pub open spec fn same_name(a: Seq<char>, b: Seq<char>, fold: bool) -> bool {
    if fold {
        ascii_lowercase(a) == ascii_lowercase(b)
    } else {
        a == b
    }
}

fn lower_code(c: char) -> (u: u32)
    ensures
        u == ascii_lower(c) as u32,
{
    if 'A' <= c && c <= 'Z' {
        (c as u32) + 32
    } else {
        c as u32
    }
}

pub fn names_match(name: &str, key: &str, fold: bool) -> (b: bool)
    ensures
        b == same_name(name@, key@, fold),
{
    let n = name.unicode_len();
    let m = key.unicode_len();
    if n != m {
        assert(ascii_lowercase(name@).len() != ascii_lowercase(key@).len());
        return false;
    }
    let mut i: usize = 0;
    while i < n
        invariant
            n == name@.len(),
            m == key@.len(),
            n == m,
            i <= n,
            forall|j: int| 0 <= j < i ==> if fold {
                ascii_lower(name@[j]) == ascii_lower(key@[j])
            } else {
                name@[j] == key@[j]
            },
        decreases n - i,
    {
        let a = name.get_char(i);
        let k = key.get_char(i);
        let same = if fold {
            lower_code(a) == lower_code(k)
        } else {
            a == k
        };
        if !same {
            if fold {
                assert(ascii_lowercase(name@)[i as int] != ascii_lowercase(key@)[i as int]);
            }
            return false;
        }
        i += 1;
    }
    if fold {
        assert(ascii_lowercase(name@) =~= ascii_lowercase(key@));
    } else {
        assert(name@ =~= key@);
    }
    true
}

/// The value paired with the first entry named `key`.
pub open spec fn assoc_lookup<V>(entries: Seq<(String, V)>, key: Seq<char>, fold: bool) -> Option<V>
    decreases entries.len(),
{
    if entries.len() == 0 {
        None
    } else if same_name(entries[0].0@, key, fold) {
        Some(entries[0].1)
    } else {
        assoc_lookup(entries.drop_first(), key, fold)
    }
}

proof fn lemma_assoc_lookup_step<V>(entries: Seq<(String, V)>, key: Seq<char>, fold: bool, i: int)
    requires
        0 <= i < entries.len(),
    ensures
        assoc_lookup(entries.subrange(i, entries.len() as int), key, fold) == if same_name(entries[i].0@, key, fold) {
            Some(entries[i].1)
        } else {
            assoc_lookup(entries.subrange(i + 1, entries.len() as int), key, fold)
        },
{
    let s = entries.subrange(i, entries.len() as int);
    assert(s.drop_first() =~= entries.subrange(i + 1, entries.len() as int));
}

/// Looking a key up after an entry is appended: the earlier entries win.
pub proof fn lemma_assoc_lookup_push<V>(s: Seq<(String, V)>, e: (String, V), key: Seq<char>, fold: bool)
    ensures
        assoc_lookup(s.push(e), key, fold) == match assoc_lookup(s, key, fold) {
            Some(v) => Some(v),
            None => if same_name(e.0@, key, fold) {
                Some(e.1)
            } else {
                None
            },
        },
    decreases s.len(),
{
    if s.len() == 0 {
        assert(s.push(e).drop_first() =~= Seq::<(String, V)>::empty());
        assert(assoc_lookup(Seq::<(String, V)>::empty(), key, fold) is None);
    } else {
        assert(s.push(e).drop_first() =~= s.drop_first().push(e));
        assert(s.push(e)[0] == s[0]);
        lemma_assoc_lookup_push(s.drop_first(), e, key, fold);
    }
}

/// A key is found nowhere exactly when no entry has that name.
pub proof fn lemma_assoc_lookup_none<V>(s: Seq<(String, V)>, key: Seq<char>, fold: bool)
    ensures
        assoc_lookup(s, key, fold) is None <==> forall|j: int| 0 <= j < s.len() ==> !same_name(#[trigger] s[j].0@, key, fold),
        assoc_lookup(s, key, fold) matches Some(v) ==> exists|j: int| 0 <= j < s.len() && same_name(#[trigger] s[j].0@, key, fold) && s[j].1 == v,
    decreases s.len(),
{
    if s.len() > 0 {
        lemma_assoc_lookup_none(s.drop_first(), key, fold);
        if assoc_lookup(s, key, fold) is None {
            assert forall|j: int| 0 <= j < s.len() implies !same_name(#[trigger] s[j].0@, key, fold) by {
                if j > 0 {
                    assert(s[j] == s.drop_first()[j - 1]);
                }
            }
        } else if !same_name(s[0].0@, key, fold) {
            let v = assoc_lookup(s, key, fold).unwrap();
            let k = choose|k: int| 0 <= k < s.drop_first().len() && same_name(#[trigger] s.drop_first()[k].0@, key, fold) && s.drop_first()[k].1 == v;
            assert(s[k + 1] == s.drop_first()[k]);
        }
        if forall|j: int| 0 <= j < s.len() ==> !same_name(#[trigger] s[j].0@, key, fold) {
            assert forall|j: int| 0 <= j < s.drop_first().len() implies !same_name(#[trigger] s.drop_first()[j].0@, key, fold) by {
                assert(s.drop_first()[j] == s[j + 1]);
            }
            assert(!same_name(s[0].0@, key, fold));
        }
    }
}

/// The value of the first entry named `key` (without regard to ASCII case
/// when `fold` is set).
pub fn assoc_find<'a, V>(entries: &'a Vec<(String, V)>, key: &str, fold: bool) -> (r: Option<&'a V>)
    ensures
        match r {
            Some(v) => assoc_lookup(entries@, key@, fold) == Some(*v),
            None => assoc_lookup(entries@, key@, fold) is None,
        },
{
    let ghost target = key@;
    let mut i: usize = 0;
    assert(entries@.subrange(0, entries@.len() as int) =~= entries@);
    while i < entries.len()
        invariant
            i <= entries@.len(),
            target == key@,
            assoc_lookup(entries@, target, fold) == assoc_lookup(
                entries@.subrange(i as int, entries@.len() as int),
                target,
                fold,
            ),
        decreases entries@.len() - i,
    {
        proof {
            lemma_assoc_lookup_step(entries@, target, fold, i as int);
        }
        if names_match(entries[i].0.as_str(), key, fold) {
            return Some(&entries[i].1);
        }
        i += 1;
    }
    None
}

} // verus!
