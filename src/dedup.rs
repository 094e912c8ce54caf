//! Duplicate detection: files grouped by content digest and, independently, by
//! file name. Only keys shared by two or more files form a group.

use vstd::prelude::*;

verus! {

/// What a group's files have in common.
#[derive(PartialEq, Eq, Structural, Clone, Copy, Debug)]
pub enum DupKind {
    /// Same content digest.
    Hash,
    /// Same file name.
    Name,
}

impl DupKind {
    /// The kind's label: `hash` or `name`.
    pub fn label(&self) -> (r: &'static str)
        ensures
            r@ == kind_label(*self),
    {
        match self {
            DupKind::Hash => "hash",
            DupKind::Name => "name",
        }
    }
}

pub open spec fn kind_label(k: DupKind) -> Seq<char> {
    match k {
        DupKind::Hash => "hash"@,
        DupKind::Name => "name"@,
    }
}

/// Files that share a key.
pub struct DupGroup {
    /// `hash` or `name`.
    pub kind: String,
    /// The hex digest or the bare file name.
    pub key: String,
    /// Member paths, in input order.
    pub files: Vec<String>,
}

pub struct DupGroupView {
    pub kind: Seq<char>,
    pub key: Seq<char>,
    pub files: Seq<Seq<char>>,
}

pub open spec fn strs(s: Seq<String>) -> Seq<Seq<char>> {
    s.map_values(|x: String| x@)
}

impl View for DupGroup {
    type V = DupGroupView;

    open spec fn view(&self) -> DupGroupView {
        DupGroupView { kind: self.kind@, key: self.key@, files: strs(self.files@) }
    }
}

pub open spec fn group_views(s: Seq<DupGroup>) -> Seq<DupGroupView> {
    s.map_values(|g: DupGroup| g@)
}

/// One input file: its path, its file name when the path has one, and its content
/// digest when it is an existing regular file.
pub struct DupEntry {
    pub path: String,
    pub name: Option<String>,
    pub digest: Option<String>,
}

/// A path with the key it is grouped by, if any.
pub type Keyed = (Seq<char>, Option<Seq<char>>);

pub open spec fn key_view(e: DupEntry, kind: DupKind) -> Option<Seq<char>> {
    match (kind, e.name, e.digest) {
        (DupKind::Name, Some(n), _) => Some(n@),
        (DupKind::Hash, _, Some(d)) => Some(d@),
        _ => None,
    }
}

/// The entries as paths with their keys of the given kind.
pub open spec fn keyed(entries: Seq<DupEntry>, kind: DupKind) -> Seq<Keyed> {
    entries.map_values(|e: DupEntry| (e.path@, key_view(e, kind)))
}

/// The paths whose key is `key`, in input order.
pub open spec fn members(items: Seq<Keyed>, key: Seq<char>) -> Seq<Seq<char>>
    decreases items.len(),
{
    if items.len() == 0 {
        Seq::empty()
    } else {
        let prev = members(items.drop_last(), key);
        if items.last().1 == Some(key) {
            prev.push(items.last().0)
        } else {
            prev
        }
    }
}

/// `groups` are the duplicate groups of `items`: one per key shared by at least
/// two paths, with exactly those paths, and no key twice.
pub open spec fn is_grouping(items: Seq<Keyed>, kind: DupKind, groups: Seq<DupGroupView>) -> bool {
    &&& forall|g: int|
        0 <= g < groups.len() ==> {
            &&& (#[trigger] groups[g]).kind == kind_label(kind)
            &&& groups[g].files == members(items, groups[g].key)
            &&& groups[g].files.len() >= 2
        }
    &&& forall|a: int, b: int|
        0 <= a < b < groups.len() ==> (#[trigger] groups[a]).key != (#[trigger] groups[b]).key
    &&& forall|key: Seq<char>|
        (#[trigger] members(items, key)).len() >= 2 ==> exists|g: int|
            0 <= g < groups.len() && (#[trigger] groups[g]).key == key
}

fn key_of(e: &DupEntry, kind: DupKind) -> (r: Option<&String>)
    ensures
        match (r, key_view(*e, kind)) {
            (Some(s), Some(k)) => s@ == k,
            (None, None) => true,
            _ => false,
        },
{
    match kind {
        DupKind::Name => match &e.name {
            Some(n) => Some(n),
            None => None,
        },
        DupKind::Hash => match &e.digest {
            Some(d) => Some(d),
            None => None,
        },
    }
}

proof fn lemma_members_step(items: Seq<Keyed>, i: int, key: Seq<char>)
    requires
        0 <= i < items.len(),
    ensures
        members(items.take(i + 1), key) == if items[i].1 == Some(key) {
            members(items.take(i), key).push(items[i].0)
        } else {
            members(items.take(i), key)
        },
{
    assert(items.take(i + 1).drop_last() =~= items.take(i));
}

/// The duplicate groups of one kind over `entries`, keys in order of first
/// appearance.
pub fn groups_of(entries: &Vec<DupEntry>, kind: DupKind) -> (r: Vec<DupGroup>)
    ensures
        is_grouping(keyed(entries@, kind), kind, group_views(r@)),
{
    let ghost items = keyed(entries@, kind);
    let mut keys: Vec<String> = Vec::new();
    let mut lists: Vec<Vec<String>> = Vec::new();
    let mut i: usize = 0;
    while i < entries.len()
        invariant
            i <= entries@.len(),
            items == keyed(entries@, kind),
            items.len() == entries@.len(),
            keys@.len() == lists@.len(),
            forall|j: int|
                0 <= j < keys@.len() ==> strs((#[trigger] lists@[j])@) == members(
                    items.take(i as int),
                    keys@[j]@,
                ),
            forall|j: int| 0 <= j < keys@.len() ==> (#[trigger] lists@[j])@.len() >= 1,
            forall|a: int, b: int|
                0 <= a < b < keys@.len() ==> (#[trigger] keys@[a])@ != (#[trigger] keys@[b])@,
            forall|key: Seq<char>|
                (#[trigger] members(items.take(i as int), key)).len() >= 1 ==> exists|j: int|
                    0 <= j < keys@.len() && (#[trigger] keys@[j])@ == key,
        decreases entries@.len() - i,
    {
        let ghost old_keys = keys@;
        let ghost old_lists = lists@;
        proof {
            assert(items[i as int] == (entries@[i as int].path@, key_view(entries@[i as int], kind)));
        }
        match key_of(&entries[i], kind) {
            None => {
                proof {
                    assert forall|key: Seq<char>|
                        members(items.take(i + 1), key) == members(items.take(i as int), key) by {
                        lemma_members_step(items, i as int, key);
                    }
                    assert forall|key: Seq<char>|
                        (#[trigger] members(items.take(i + 1), key)).len() >= 1 implies exists|t: int|
                        0 <= t < keys@.len() && (#[trigger] keys@[t])@ == key by {
                        assert(members(items.take(i + 1), key) == members(items.take(i as int), key));
                    }
                }
            },
            Some(k) => {
                let mut j: usize = 0;
                let mut found = false;
                while j < keys.len()
                    invariant_except_break
                        !found,
                    invariant
                        j <= keys@.len(),
                        keys@ == old_keys,
                        lists@ == old_lists,
                        forall|t: int| 0 <= t < j ==> (#[trigger] keys@[t])@ != k@,
                    ensures
                        keys@ == old_keys,
                        lists@ == old_lists,
                        found ==> j < keys@.len() && keys@[j as int]@ == k@,
                        !found ==> forall|t: int| 0 <= t < keys@.len() ==> (#[trigger] keys@[t])@ != k@,
                    decreases keys@.len() - j,
                {
                    if keys[j] == *k {
                        found = true;
                        break;
                    }
                    j = j + 1;
                }
                let path = entries[i].path.clone();
                if found {
                    let ghost before = lists@[j as int];
                    lists[j].push(path);
                    proof {
                        assert(strs(lists@[j as int]@) =~= strs(before@).push(entries@[i as int].path@));
                        assert forall|t: int| 0 <= t < keys@.len() implies strs(
                            (#[trigger] lists@[t])@,
                        ) == members(items.take(i + 1), keys@[t]@) by {
                            lemma_members_step(items, i as int, keys@[t]@);
                        }
                        assert forall|key: Seq<char>|
                            (#[trigger] members(items.take(i + 1), key)).len() >= 1 implies exists|
                            t: int,
                        | 0 <= t < keys@.len() && (#[trigger] keys@[t])@ == key by {
                            lemma_members_step(items, i as int, key);
                            if key == k@ {
                                assert(keys@[j as int]@ == key);
                            }
                        }
                    }
                } else {
                    keys.push(k.clone());
                    lists.push(vec![path]);
                    proof {
                        let n = old_keys.len() as int;
                        assert(strs(lists@[n]@) =~= seq![entries@[i as int].path@]);
                        assert(members(items.take(i as int), k@).len() == 0) by {
                            if members(items.take(i as int), k@).len() >= 1 {
                                let t = choose|t: int|
                                    0 <= t < old_keys.len() && (#[trigger] old_keys[t])@ == k@;
                                assert(old_keys[t]@ != k@);
                            }
                        }
                        lemma_members_step(items, i as int, k@);
                        assert(members(items.take(i as int), k@) =~= Seq::<Seq<char>>::empty());
                        assert forall|t: int| 0 <= t < keys@.len() implies strs(
                            (#[trigger] lists@[t])@,
                        ) == members(items.take(i + 1), keys@[t]@) by {
                            lemma_members_step(items, i as int, keys@[t]@);
                            if t < n {
                                assert(lists@[t] == old_lists[t]);
                                assert(keys@[t] == old_keys[t]);
                            }
                        }
                        assert forall|t: int| 0 <= t < keys@.len() implies (#[trigger] lists@[t])@.len() >= 1 by {
                            if t < n {
                                assert(lists@[t] == old_lists[t]);
                            }
                        }
                        assert forall|a: int, b: int|
                            0 <= a < b < keys@.len() implies (#[trigger] keys@[a])@ != (
                            #[trigger] keys@[b])@ by {
                            if b < n {
                                assert(keys@[a] == old_keys[a]);
                                assert(keys@[b] == old_keys[b]);
                            } else {
                                assert(keys@[a] == old_keys[a]);
                            }
                        }
                        assert forall|key: Seq<char>|
                            (#[trigger] members(items.take(i + 1), key)).len() >= 1 implies exists|
                            t: int,
                        | 0 <= t < keys@.len() && (#[trigger] keys@[t])@ == key by {
                            lemma_members_step(items, i as int, key);
                            if key == k@ {
                                assert(keys@[n]@ == key);
                            } else {
                                let t = choose|t: int|
                                    0 <= t < old_keys.len() && (#[trigger] old_keys[t])@ == key;
                                assert(keys@[t] == old_keys[t]);
                            }
                        }
                    }
                }
            },
        }
        i = i + 1;
    }
    proof {
        assert(items.take(entries@.len() as int) =~= items);
    }
    let mut r: Vec<DupGroup> = Vec::new();
    let mut j: usize = 0;
    let ghost mut picked: Seq<int> = Seq::empty();
    let ghost all_keys = keys@;
    while j < keys.len()
        invariant
            j <= keys@.len(),
            keys@ == all_keys,
            keys@.len() == lists@.len(),
            items == keyed(entries@, kind),
            forall|t: int|
                j <= t < keys@.len() ==> strs((#[trigger] lists@[t])@) == members(items, keys@[t]@),
            forall|a: int, b: int|
                0 <= a < b < keys@.len() ==> (#[trigger] keys@[a])@ != (#[trigger] keys@[b])@,
            forall|key: Seq<char>|
                (#[trigger] members(items, key)).len() >= 1 ==> exists|t: int|
                    0 <= t < keys@.len() && (#[trigger] keys@[t])@ == key,
            picked.len() == r@.len(),
            forall|g: int|
                0 <= g < r@.len() ==> {
                    &&& 0 <= #[trigger] picked[g] < j
                    &&& r@[g]@.kind == kind_label(kind)
                    &&& r@[g]@.key == keys@[picked[g]]@
                    &&& r@[g]@.files == members(items, keys@[picked[g]]@)
                    &&& r@[g]@.files.len() >= 2
                },
            forall|a: int, b: int| 0 <= a < b < r@.len() ==> picked[a] < picked[b],
            forall|t: int|
                0 <= t < j && (#[trigger] members(items, keys@[t]@)).len() >= 2 ==> exists|g: int|
                    0 <= g < r@.len() && picked[g] == t,
        decreases keys@.len() - j,
    {
        let ghost old_r = r@;
        let ghost old_picked = picked;
        let ghost old_lists = lists@;
        let mut files: Vec<String> = Vec::new();
        std::mem::swap(&mut files, &mut lists[j]);
        proof {
            assert(files == old_lists[j as int]);
            assert(strs(files@).len() == files@.len());
            assert forall|t: int| j < t < keys@.len() implies lists@[t] == old_lists[t] by {}
        }
        if files.len() >= 2 {
            let ghost fv = files@;
            let g = DupGroup { kind: kind.label().to_owned(), key: keys[j].clone(), files };
            assert(g@.files == strs(fv));
            assert(g@.key == keys@[j as int]@);
            assert(g@.files == members(items, keys@[j as int]@));
            r.push(g);
            proof {
                assert(r@[r@.len() - 1] == g);
                picked = picked.push(j as int);
                assert forall|g: int| 0 <= g < old_r.len() implies r@[g] == old_r[g] && picked[g]
                    == old_picked[g] by {}
                assert(picked[r@.len() - 1] == j as int);
            }
        }
        proof {
            assert forall|t: int|
                0 <= t <= j && (#[trigger] members(items, keys@[t]@)).len() >= 2 implies exists|g: int|
                0 <= g < r@.len() && picked[g] == t by {
                if t == j {
                    assert(picked[r@.len() - 1] == t);
                } else {
                    let g = choose|g: int| 0 <= g < old_r.len() && old_picked[g] == t;
                    assert(picked[g] == old_picked[g]);
                }
            }
        }
        j = j + 1;
    }
    proof {
        let gv = group_views(r@);
        assert forall|g: int| 0 <= g < gv.len() implies {
            &&& (#[trigger] gv[g]).kind == kind_label(kind)
            &&& gv[g].files == members(items, gv[g].key)
            &&& gv[g].files.len() >= 2
        } by {
            assert(gv[g] == r@[g]@);
            assert(0 <= picked[g]);
        }
        assert forall|a: int, b: int| 0 <= a < b < gv.len() implies (#[trigger] gv[a]).key != (
        #[trigger] gv[b]).key by {
            assert(gv[a] == r@[a]@);
            assert(gv[b] == r@[b]@);
            assert(picked[a] < picked[b]);
        }
        assert forall|key: Seq<char>| (#[trigger] members(items, key)).len() >= 2 implies exists|
            g: int,
        | 0 <= g < gv.len() && (#[trigger] gv[g]).key == key by {
            let t = choose|t: int| 0 <= t < keys@.len() && (#[trigger] keys@[t])@ == key;
            assert(members(items, keys@[t]@).len() >= 2);
            let g = choose|g: int| 0 <= g < r@.len() && picked[g] == t;
            assert(gv[g] == r@[g]@);
        }
    }
    r
}

/// The SHA-256 digest of a byte sequence.
pub uninterp spec fn sha256_of(data: Seq<u8>) -> Seq<u8>;

/// Relies on `sha2::Sha256::digest`: the SHA-256 digest of `data`, which is 32 bytes long.
#[verifier::external_body]
fn sha256(data: &[u8]) -> (r: Vec<u8>)
    ensures
        r@ == sha256_of(data@),
        r@.len() == 32,
{
    <sha2::Sha256 as sha2::Digest>::digest(data).to_vec()
}

/// Lowercase hexadecimal digit of a value below 16.
pub open spec fn hex_digit(n: int) -> char {
    if n == 0 {
        '0'
    } else if n == 1 {
        '1'
    } else if n == 2 {
        '2'
    } else if n == 3 {
        '3'
    } else if n == 4 {
        '4'
    } else if n == 5 {
        '5'
    } else if n == 6 {
        '6'
    } else if n == 7 {
        '7'
    } else if n == 8 {
        '8'
    } else if n == 9 {
        '9'
    } else if n == 10 {
        'a'
    } else if n == 11 {
        'b'
    } else if n == 12 {
        'c'
    } else if n == 13 {
        'd'
    } else if n == 14 {
        'e'
    } else {
        'f'
    }
}

/// Two lowercase hex digits per byte, high nibble first.
pub open spec fn hex_text(b: Seq<u8>) -> Seq<char>
    decreases b.len(),
{
    if b.len() == 0 {
        Seq::empty()
    } else {
        hex_text(b.drop_last()) + seq![hex_digit(b.last() as int / 16), hex_digit(b.last() as int % 16)]
    }
}

/// Relies on `hex::encode`: each byte becomes two lowercase hex digits, high nibble first.
#[verifier::external_body]
fn hex_encode(data: &[u8]) -> (r: String)
    ensures
        r@ == hex_text(data@),
{
    hex::encode(data)
}

proof fn lemma_hex_text_len(b: Seq<u8>)
    ensures
        hex_text(b).len() == 2 * b.len(),
    decreases b.len(),
{
    if b.len() > 0 {
        lemma_hex_text_len(b.drop_last());
    }
}

/// The content key of a file: the hex form of the SHA-256 digest of its bytes,
/// 64 lowercase hex digits.
pub fn content_digest(data: &[u8]) -> (r: String)
    ensures
        r@ == hex_text(sha256_of(data@)),
        r@.len() == 64,
{
    let d = sha256(data);
    proof {
        lemma_hex_text_len(d@);
    }
    hex_encode(d.as_slice())
}

/// All duplicate groups: those by content digest first, then those by file name.
pub fn detect_groups(entries: &Vec<DupEntry>) -> (r: Vec<DupGroup>)
    ensures
        exists|n: int|
            0 <= n <= r@.len() && is_grouping(
                keyed(entries@, DupKind::Hash),
                DupKind::Hash,
                group_views(r@).take(n),
            ) && is_grouping(
                keyed(entries@, DupKind::Name),
                DupKind::Name,
                group_views(r@).skip(n),
            ),
{
    let mut r = groups_of(entries, DupKind::Hash);
    let mut names = groups_of(entries, DupKind::Name);
    let ghost h = r@;
    let ghost nm = names@;
    r.append(&mut names);
    proof {
        assert(group_views(r@).take(h.len() as int) =~= group_views(h));
        assert(group_views(r@).skip(h.len() as int) =~= group_views(nm));
    }
    r
}

/// Byte-identical files A and B with a different C: grouping by digest yields
/// exactly one group, holding A and B.
pub proof fn lemma_identical_pair(
    a: Seq<char>,
    b: Seq<char>,
    c: Seq<char>,
    dab: Seq<char>,
    dc: Seq<char>,
    groups: Seq<DupGroupView>,
)
    requires
        dab != dc,
        is_grouping(seq![(a, Some(dab)), (b, Some(dab)), (c, Some(dc))], DupKind::Hash, groups),
    ensures
        groups.len() == 1,
        groups[0].key == dab,
        groups[0].files == seq![a, b],
{
    let items: Seq<Keyed> = seq![(a, Some(dab)), (b, Some(dab)), (c, Some(dc))];
    let two: Seq<Keyed> = seq![(a, Some(dab)), (b, Some(dab))];
    let one: Seq<Keyed> = seq![(a, Some(dab))];
    assert(items.drop_last() =~= two);
    assert(two.drop_last() =~= one);
    assert(one.drop_last() =~= Seq::<Keyed>::empty());
    assert(one.last() == (a, Some(dab)));
    assert(two.last() == (b, Some(dab)));
    assert(items.last() == (c, Some(dc)));
    assert(members(Seq::<Keyed>::empty(), dab) == Seq::<Seq<char>>::empty());
    assert(members(one, dab) =~= seq![a]);
    assert(members(two, dab) =~= seq![a, b]);
    assert(members(items, dab) =~= seq![a, b]);
    assert forall|key: Seq<char>| key != dab implies (#[trigger] members(items, key)).len() < 2 by {
        assert(members(Seq::<Keyed>::empty(), key) == Seq::<Seq<char>>::empty());
        assert(members(one, key).len() == 0);
        assert(members(two, key).len() == 0);
    }
    assert forall|g: int| 0 <= g < groups.len() implies (#[trigger] groups[g]).key == dab by {
        assert(members(items, groups[g].key).len() >= 2);
    }
    let g0 = choose|g: int| 0 <= g < groups.len() && (#[trigger] groups[g]).key == dab;
    if groups.len() > 1 {
        assert(groups[0].key == dab);
        assert(groups[1].key == dab);
    }
}

} // verus!
