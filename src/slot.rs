//! Slot keys: the descriptions under which payloads are stored, made of a
//! fixed marker and a random suffix.
use vstd::prelude::*;

use crate::random::{all_alphanumeric, random_alphanumeric, with_suffix};
use crate::tag::{has_description, EmbeddedObject, ObjectModel};

verus! {

/// Number of random characters after the marker in a slot key.
pub const SLOT_SUFFIX_LEN: usize = 10;

/// How many keys are drawn, at most, in search of one that no frame of the
/// tag uses yet.
pub const KEY_ATTEMPTS: usize = 8;

/// The marker that every slot key starts with.
pub open spec fn marker() -> Seq<char> {
    "id3stego"@
}

/// Whether `pat` occurs in `s` as a contiguous run.
pub open spec fn contains_text(s: Seq<char>, pat: Seq<char>) -> bool {
    exists|i: int|
        0 <= i && i + pat.len() <= s.len() && #[trigger] s.subrange(i, i + pat.len()) == pat
}

/// Whether a frame description marks a payload of this library: it holds
/// the marker anywhere, not only at its start. This is a loose test: a
/// foreign description that happens to hold the marker is taken for a
/// payload as well.
pub open spec fn is_marked(description: Seq<char>) -> bool {
    contains_text(description, marker())
}

/// Whether `k` is a slot key: the marker followed by `SLOT_SUFFIX_LEN`
/// ASCII letters or digits.
pub open spec fn is_slot_key(k: Seq<char>) -> bool {
    &&& k.len() == marker().len() + SLOT_SUFFIX_LEN
    &&& k.subrange(0, marker().len() as int) == marker()
    &&& all_alphanumeric(k.subrange(marker().len() as int, k.len() as int))
}

/// The views of a sequence of objects.
pub open spec fn object_views(objs: Seq<EmbeddedObject>) -> Seq<ObjectModel> {
    objs.map_values(|o: EmbeddedObject| o@)
}

/// The key of a slot, or the first of `keys` that no object in `objs`
/// uses; the last of them where all are used.
pub open spec fn first_unused(objs: Seq<ObjectModel>, keys: Seq<Seq<char>>) -> Seq<char>
    decreases keys.len(),
{
    if keys.len() <= 1 || !has_description(objs, keys[0]) {
        keys[0]
    } else {
        first_unused(objs, keys.drop_first())
    }
}

/// The texts of a sequence of strings.
pub open spec fn key_views(keys: Seq<String>) -> Seq<Seq<char>> {
    keys.map_values(|k: String| k@)
}

/// Whether `pat` occurs in `s`.
pub fn contains_chars(s: &str, pat: &str) -> (r: bool)
    ensures
        r == contains_text(s@, pat@),
{
    let n = s.unicode_len();
    let m = pat.unicode_len();
    if m > n {
        return false;
    }
    let mut i: usize = 0;
    while i <= n - m
        invariant
            n == s@.len(),
            m == pat@.len(),
            m <= n,
            i <= n - m + 1,
            forall|j: int| 0 <= j < i ==> #[trigger] s@.subrange(j, j + m) != pat@,
        decreases n - m + 1 - i,
    {
        let mut k: usize = 0;
        while k < m && s.get_char(i + k) == pat.get_char(k)
            invariant
                n == s@.len(),
                m == pat@.len(),
                i + m <= n,
                k <= m,
                forall|l: int| 0 <= l < k ==> s@[i + l] == pat@[l],
            decreases m - k,
        {
            k = k + 1;
        }
        if k == m {
            assert(s@.subrange(i as int, i + m) =~= pat@);
            return true;
        }
        assert(s@.subrange(i as int, i + m)[k as int] != pat@[k as int]);
        i = i + 1;
    }
    false
}

/// Whether a frame description marks a payload of this library.
pub fn is_marked_description(description: &str) -> (r: bool)
    ensures
        r == is_marked(description@),
{
    contains_chars(description, "id3stego")
}

/// A new slot key: the marker and random letters and digits.
pub fn generate_slot_key() -> (r: String)
    ensures
        is_slot_key(r@),
{
    let marker_text = "id3stego".to_owned();
    let suffix = random_alphanumeric(SLOT_SUFFIX_LEN);
    proof {
        reveal_strlit("id3stego");
    }
    let ghost start = marker_text@;
    let key = with_suffix(marker_text, suffix.as_str());
    assert(key@.subrange(0, start.len() as int) =~= start);
    assert(key@.subrange(start.len() as int, key@.len() as int) =~= suffix@);
    key
}

/// Whether some object in `objs` has the description `key`.
pub fn description_in_use(objs: &Vec<EmbeddedObject>, key: &String) -> (r: bool)
    ensures
        r == has_description(object_views(objs@), key@),
{
    let ghost views = object_views(objs@);
    let mut i: usize = 0;
    while i < objs.len()
        invariant
            0 <= i <= objs@.len(),
            views == object_views(objs@),
            forall|j: int| 0 <= j < i ==> (#[trigger] views[j]).description != key@,
        decreases objs@.len() - i,
    {
        if objs[i].description == *key {
            assert(views[i as int].description == key@);
            return true;
        }
        i = i + 1;
    }
    false
}

/// The first of `keys` that no object in `objs` uses, or the last of them
/// where every one is taken.
pub fn pick_unused_key(objs: &Vec<EmbeddedObject>, keys: &Vec<String>) -> (r: String)
    requires
        keys@.len() > 0,
    ensures
        r@ == first_unused(object_views(objs@), key_views(keys@)),
{
    let ghost ks = key_views(keys@);
    let ghost views = object_views(objs@);
    let last = keys.len() - 1;
    let mut i: usize = 0;
    assert(ks.subrange(0, ks.len() as int) =~= ks);
    while i < last && description_in_use(objs, &keys[i])
        invariant
            0 <= i < keys@.len(),
            last == keys@.len() - 1,
            ks == key_views(keys@),
            views == object_views(objs@),
            first_unused(views, ks) == first_unused(views, ks.subrange(i as int, ks.len() as int)),
        decreases keys@.len() - i,
    {
        proof {
            let sub = ks.subrange(i as int, ks.len() as int);
            assert(sub[0] == keys@[i as int]@);
            assert(sub.drop_first() =~= ks.subrange(i + 1, ks.len() as int));
        }
        i = i + 1;
    }
    proof {
        let sub = ks.subrange(i as int, ks.len() as int);
        assert(sub[0] == keys@[i as int]@);
    }
    keys[i].clone()
}

/// The chosen key is one of the keys offered.
proof fn lemma_first_unused_is_slot_key(objs: Seq<ObjectModel>, keys: Seq<Seq<char>>)
    requires
        keys.len() > 0,
        forall|i: int| 0 <= i < keys.len() ==> is_slot_key(#[trigger] keys[i]),
    ensures
        is_slot_key(first_unused(objs, keys)),
    decreases keys.len(),
{
    if keys.len() > 1 && has_description(objs, keys[0]) {
        let rest = keys.drop_first();
        assert forall|i: int| 0 <= i < rest.len() implies is_slot_key(#[trigger] rest[i]) by {
            assert(rest[i] == keys[i + 1]);
        }
        lemma_first_unused_is_slot_key(objs, rest);
    }
}

/// A slot key that no object in `objs` uses: the first unused one among
/// `KEY_ATTEMPTS` drawn keys, or the last of them where every one is taken.
pub fn fresh_slot_key(objs: &Vec<EmbeddedObject>) -> (r: String)
    ensures
        is_slot_key(r@),
        exists|keys: Seq<Seq<char>>|
            keys.len() == KEY_ATTEMPTS && (forall|i: int|
                0 <= i < keys.len() ==> is_slot_key(#[trigger] keys[i])) && r@
                == #[trigger] first_unused(object_views(objs@), keys),
{
    let mut keys: Vec<String> = Vec::new();
    while keys.len() < KEY_ATTEMPTS
        invariant
            keys@.len() <= KEY_ATTEMPTS,
            forall|i: int| 0 <= i < keys@.len() ==> is_slot_key(#[trigger] keys@[i]@),
        decreases KEY_ATTEMPTS - keys@.len(),
    {
        keys.push(generate_slot_key());
    }
    let key = pick_unused_key(objs, &keys);
    proof {
        let ks = key_views(keys@);
        assert forall|i: int| 0 <= i < ks.len() implies is_slot_key(#[trigger] ks[i]) by {
            assert(ks[i] == keys@[i]@);
        }
        lemma_first_unused_is_slot_key(object_views(objs@), ks);
    }
    key
}

/// A slot key holds the marker, so extraction recognises it.
pub proof fn lemma_slot_key_is_marked(k: Seq<char>)
    requires
        is_slot_key(k),
    ensures
        is_marked(k),
{
    assert(k.subrange(0, 0 + marker().len() as int) == marker());
}

} // verus!
