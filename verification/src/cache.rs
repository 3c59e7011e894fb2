//! A registry of weakly-held decoded data sets.
//!
//! A data set is published under a fresh key made of a strictly increasing
//! counter and a sanitized form of the set's source identifier; the
//! registry keeps only a weak reference, so it never keeps a data set
//! alive. A lookup that finds its entry dead removes the entry, and a key
//! whose entry is gone can never resolve again: every later entry carries
//! a larger identifier.

use vstd::prelude::*;
use std::sync::Arc;
use std::sync::Weak;
use crate::data::AtsFile;

verus! {

/// A non-owning reference to a published data set. `std::sync::Weak`
/// takes an allocator type parameter, which keeps the verifier from
/// accepting the type itself in declarations, so it lives inside this
/// opaque wrapper; the two functions below carry its contract.
#[verifier::external_body]
pub struct WeakSlot {
    inner: Weak<AtsFile>,
}

/// The data set a weak slot points at. A weak reference identifies one
/// allocation, and a published data set is immutable, so this is a
/// function of the slot alone.
pub uninterp spec fn weak_data(w: WeakSlot) -> AtsFile;

/// Relies on std::sync::Arc::downgrade: the returned weak reference
/// points at the argument's allocation, which holds `*data`.
#[verifier::external_body]
fn arc_downgrade(data: &Arc<AtsFile>) -> (w: WeakSlot)
    ensures
        weak_data(w) == *data,
{
    WeakSlot { inner: Arc::downgrade(data) }
}

/// Relies on std::sync::Weak::upgrade: while the pointed-to value still
/// has a strong owner it returns a new strong reference to that value,
/// and once the value is dropped it returns nothing. Which case occurs
/// depends on the rest of the process, so only the hit's value is
/// promised.
#[verifier::external_body]
fn weak_upgrade(w: &WeakSlot) -> (r: Option<Arc<AtsFile>>)
    ensures
        r matches Some(a) ==> a == weak_data(*w),
{
    w.inner.upgrade()
}

/// Relies on std::sync::Arc::clone: the new strong reference holds the
/// same value as the argument.
#[verifier::external_body]
pub(crate) fn arc_clone(a: &Arc<AtsFile>) -> (r: Arc<AtsFile>)
    ensures
        r == *a,
{
    Arc::clone(a)
}

/// Relies on String::push: appends exactly the one character.
#[verifier::external_body]
pub(crate) fn push_char(s: &mut String, c: char)
    ensures
        final(s)@ == old(s)@.push(c),
{
    s.push(c);
}

/// The decimal digit character of `d`.
pub open spec fn digit_char(d: int) -> char {
    if d == 0 {
        '0'
    } else if d == 1 {
        '1'
    } else if d == 2 {
        '2'
    } else if d == 3 {
        '3'
    } else if d == 4 {
        '4'
    } else if d == 5 {
        '5'
    } else if d == 6 {
        '6'
    } else if d == 7 {
        '7'
    } else if d == 8 {
        '8'
    } else {
        '9'
    }
}

/// The decimal notation of `n`, most significant digit first, without
/// leading zeros (a single zero for 0).
pub open spec fn decimal_digits(n: int) -> Seq<char>
    recommends
        n >= 0,
    decreases n,
{
    if n < 10 {
        seq![digit_char(n)]
    } else {
        decimal_digits(n / 10).push(digit_char(n % 10))
    }
}

/// Returns the decimal digit character of `d`.
fn digit_char_of(d: u64) -> (c: char)
    requires
        d < 10,
    ensures
        c == digit_char(d as int),
{
    if d == 0 {
        '0'
    } else if d == 1 {
        '1'
    } else if d == 2 {
        '2'
    } else if d == 3 {
        '3'
    } else if d == 4 {
        '4'
    } else if d == 5 {
        '5'
    } else if d == 6 {
        '6'
    } else if d == 7 {
        '7'
    } else if d == 8 {
        '8'
    } else {
        '9'
    }
}

/// Appends the decimal notation of `n` to `s`.
pub(crate) fn push_decimal(s: &mut String, n: u64)
    ensures
        final(s)@ == old(s)@ + decimal_digits(n as int),
    decreases n,
{
    if n < 10 {
        push_char(s, digit_char_of(n));
        assert(final(s)@ =~= old(s)@ + decimal_digits(n as int));
    } else {
        proof {
            assert(n / 10 < n) by (nonlinear_arith)
                requires
                    n >= 10,
            ;
        }
        push_decimal(s, n / 10);
        push_char(s, digit_char_of(n % 10));
        assert(final(s)@ =~= old(s)@ + decimal_digits(n as int));
    }
}

/// How one character of a source identifier appears in a key: path
/// separators become hyphens, ASCII letters and digits stay, everything
/// else becomes an underscore.
pub open spec fn sanitize_char(c: char) -> char {
    if c == '/' {
        '-'
    } else if (65 <= c as u32 && c as u32 <= 90)  // 'A' to 'Z'
        || (97 <= c as u32 && c as u32 <= 122)  // 'a' to 'z'
        || (48 <= c as u32 && c as u32 <= 57)  // '0' to '9'
     {
        c
    } else {
        '_'
    }
}

/// A source identifier sanitized character by character.
pub open spec fn sanitize_text(s: Seq<char>) -> Seq<char>
    decreases s.len(),
{
    if s.len() == 0 {
        Seq::empty()
    } else {
        sanitize_text(s.drop_last()).push(sanitize_char(s.last()))
    }
}

/// Appends the sanitized form of `src` to `s`.
fn push_sanitized(s: &mut String, src: &str)
    ensures
        final(s)@ == old(s)@ + sanitize_text(src@),
{
    let n = src.unicode_len();
    let mut i: usize = 0;
    while i < n
        invariant
            n == src@.len(),
            i <= n,
            s@ == old(s)@ + sanitize_text(src@.subrange(0, i as int)),
        decreases n - i,
    {
        let c = src.get_char(i);
        let out = if c == '/' {
            '-'
        } else {
            let u = c as u32;
            if (65 <= u && u <= 90) || (97 <= u && u <= 122) || (48 <= u && u <= 57) {
                c
            } else {
                '_'
            }
        };
        assert(out == sanitize_char(src@[i as int]));
        push_char(s, out);
        proof {
            let pre = src@.subrange(0, i as int);
            let cur = src@.subrange(0, i + 1);
            assert(cur.drop_last() =~= pre);
            assert(cur.last() == src@[i as int]);
            assert(s@ =~= old(s)@ + sanitize_text(cur));
        }
        i = i + 1;
    }
    proof {
        assert(src@.subrange(0, src@.len() as int) =~= src@);
    }
}

/// The text of the key generated for counter value `id` and a data set
/// whose source identifier is `src`: the counter in decimal, a hyphen,
/// and the sanitized source.
pub open spec fn key_text(id: int, src: Seq<char>) -> Seq<char> {
    decimal_digits(id) + seq!['-'] + sanitize_text(src)
}

/// A registry key. Keys are only generated by publishing a data set; the
/// identifier is unique across one registry's lifetime.
pub struct Key {
    /// The counter value the key was generated from.
    pub id: u64,
    /// The printable form of the key.
    pub text: String,
}

/// One registry row: the key identifier and the weak slot it resolves to.
pub struct CacheEntry {
    /// The identifier of the key the entry was published under.
    pub id: u64,
    /// A non-owning reference to the published data set.
    pub slot: WeakSlot,
}

/// The registry: a counter for fresh keys and the live rows, in
/// publication order.
pub struct Cache {
    /// The identifier the next published data set receives.
    pub next_id: u64,
    /// The rows, with strictly increasing identifiers.
    pub entries: Vec<CacheEntry>,
}

impl Cache {
    /// Rows are in publication order with strictly increasing
    /// identifiers, all below the counter.
    pub open spec fn wf(self) -> bool {
        &&& forall|i: int, j: int|
            0 <= i < j < self.entries@.len() ==> (#[trigger] self.entries@[i].id) < (
            #[trigger] self.entries@[j].id)
        &&& forall|i: int|
            0 <= i < self.entries@.len() ==> (#[trigger] self.entries@[i].id) < self.next_id
    }

    /// True when some row carries identifier `id`.
    pub open spec fn resolves(self, id: u64) -> bool {
        exists|i: int| 0 <= i < self.entries@.len() && (#[trigger] self.entries@[i].id) == id
    }

    /// Creates an empty registry.
    pub fn new() -> (c: Cache)
        ensures
            c.wf(),
            c.next_id == 0,
            c.entries@.len() == 0,
    {
        Cache { next_id: 0, entries: Vec::new() }
    }

    /// Publishes a data set: stores a weak reference under a fresh key
    /// combining the counter with the sanitized source identifier, and
    /// returns the key. The strong reference passed in is dropped on
    /// return, so the registry alone never keeps the data alive.
    pub fn insert(&mut self, data: Arc<AtsFile>) -> (k: Key)
        requires
            old(self).wf(),
            old(self).next_id < u64::MAX,
        ensures
            final(self).wf(),
            final(self).next_id == old(self).next_id + 1,
            k.id == old(self).next_id,
            k.text@ == key_text(old(self).next_id as int, data.source@),
            final(self).entries@.len() == old(self).entries@.len() + 1,
            forall|i: int|
                0 <= i < old(self).entries@.len() ==> final(self).entries@[i] == old(
                    self,
                ).entries@[i],
            final(self).entries@.last().id == k.id,
            weak_data(final(self).entries@.last().slot) == *data,
            final(self).resolves(k.id),
            forall|id: u64| old(self).resolves(id) ==> final(self).resolves(id),
    {
        let id = self.next_id;
        self.next_id = self.next_id + 1;
        let mut text = String::new();
        push_decimal(&mut text, id);
        push_char(&mut text, '-');
        push_sanitized(&mut text, data.source.as_str());
        let slot = arc_downgrade(&data);
        self.entries.push(CacheEntry { id, slot });
        proof {
            let es = self.entries@;
            let pes = old(self).entries@;
            assert forall|i: int, j: int| 0 <= i < j < es.len() implies (#[trigger] es[i].id) < (
            #[trigger] es[j].id) by {
                if j == es.len() - 1 {
                    assert(es[i] == pes[i]);
                    assert(pes[i].id < old(self).next_id);
                } else {
                    assert(es[i] == pes[i]);
                    assert(es[j] == pes[j]);
                }
            }
            assert(es[es.len() - 1].id == id);
            assert forall|idv: u64| old(self).resolves(idv) implies self.resolves(idv) by {
                let i = choose|i: int| 0 <= i < pes.len() && (#[trigger] pes[i].id) == idv;
                assert(es[i].id == idv);
            }
        }
        Key { id, text }
    }

    /// Looks a key up. A hit returns a new strong reference to the very
    /// data set the key was published for. A miss - no row, or a row
    /// whose data set has been dropped - returns nothing, and a dead row
    /// is removed, so the key never resolves again.
    pub fn get(&mut self, key: &Key) -> (r: Option<Arc<AtsFile>>)
        requires
            old(self).wf(),
        ensures
            final(self).wf(),
            final(self).next_id == old(self).next_id,
            match r {
                Some(a) => {
                    &&& *final(self) == *old(self)
                    &&& exists|i: int|
                        0 <= i < old(self).entries@.len() && (#[trigger] old(
                            self,
                        ).entries@[i].id) == key.id && a == weak_data(old(self).entries@[i].slot)
                },
                None => {
                    &&& !final(self).resolves(key.id)
                    &&& !old(self).resolves(key.id) ==> *final(self) == *old(self)
                },
            },
            forall|id: u64|
                id != key.id ==> (final(self).resolves(id) <==> old(self).resolves(id)),
    {
        let n = self.entries.len();
        let mut i: usize = 0;
        while i < n
            invariant
                old(self).wf(),
                *self == *old(self),
                n == self.entries@.len(),
                i <= n,
                forall|j: int| 0 <= j < i ==> (#[trigger] self.entries@[j].id) != key.id,
            decreases n - i,
        {
            if self.entries[i].id == key.id {
                let up = weak_upgrade(&self.entries[i].slot);
                if up.is_some() {
                    return up;
                }
                self.entries.remove(i);
                proof {
                    let es = self.entries@;
                    let pes = old(self).entries@;
                    pes.remove_ensures(i as int);
                    assert forall|a: int, b: int| 0 <= a < b < es.len() implies (
                    #[trigger] es[a].id) < (#[trigger] es[b].id) by {
                        let oa: int = if a < i { a } else { a + 1 };
                        let ob: int = if b < i { b } else { b + 1 };
                        assert(es[a] == pes[oa]);
                        assert(es[b] == pes[ob]);
                    }
                    assert forall|a: int| 0 <= a < es.len() implies (#[trigger] es[a].id) < self.next_id by {
                        let oa: int = if a < i { a } else { a + 1 };
                        assert(es[a] == pes[oa]);
                    }
                    assert forall|a: int| 0 <= a < es.len() implies (#[trigger] es[a].id) != key.id by {
                        if a >= i {
                            assert(es[a] == pes[a + 1]);
                            assert(pes[i as int].id < pes[a + 1].id);
                        } else {
                            assert(es[a] == pes[a]);
                        }
                    }
                    assert forall|idv: u64| idv != key.id && old(self).resolves(idv) implies self.resolves(
                        idv,
                    ) by {
                        let j = choose|j: int|
                            0 <= j < pes.len() && (#[trigger] pes[j].id) == idv;
                        if j < i {
                            assert(es[j].id == idv);
                        } else {
                            assert(j != i);
                            assert(es[j - 1] == pes[j]);
                            assert(es[j - 1].id == idv);
                        }
                    }
                    assert forall|idv: u64| idv != key.id && self.resolves(idv) implies old(
                        self,
                    ).resolves(idv) by {
                        let j = choose|j: int|
                            0 <= j < es.len() && (#[trigger] es[j].id) == idv;
                        if j < i {
                            assert(pes[j].id == idv);
                        } else {
                            assert(pes[j + 1].id == idv);
                        }
                    }
                }
                return None;
            }
            i = i + 1;
        }
        None
    }
}


/// A decimal rendering holds exactly the digit characters, never the
/// separator.
proof fn lemma_decimal_no_hyphen(n: int, i: int)
    requires
        0 <= n,
        0 <= i < decimal_digits(n).len(),
    ensures
        decimal_digits(n)[i] != '-',
    decreases n,
{
    if n >= 10 && i < decimal_digits(n).len() - 1 {
        lemma_decimal_no_hyphen(n / 10, i);
    }
}

/// A number below 10 renders as one character, a larger one as more.
proof fn lemma_decimal_len(n: int)
    requires
        0 <= n,
    ensures
        decimal_digits(n).len() >= 1,
        (decimal_digits(n).len() == 1) == (n < 10),
    decreases n,
{
    if n >= 10 {
        lemma_decimal_len(n / 10);
    }
}

/// Two numbers with the same decimal rendering are equal.
proof fn lemma_decimal_injective(a: int, b: int)
    requires
        0 <= a,
        0 <= b,
        decimal_digits(a) == decimal_digits(b),
    ensures
        a == b,
    decreases a,
{
    lemma_decimal_len(a);
    lemma_decimal_len(b);
    if a < 10 && b < 10 {
        assert(decimal_digits(a)[0] == digit_char(a));
        assert(decimal_digits(b)[0] == digit_char(b));
    } else if a >= 10 && b >= 10 {
        let da = decimal_digits(a);
        let db = decimal_digits(b);
        assert(da.last() == digit_char(a % 10));
        assert(db.last() == digit_char(b % 10));
        assert(a % 10 == b % 10);
        assert(da.drop_last() =~= decimal_digits(a / 10));
        assert(db.drop_last() =~= decimal_digits(b / 10));
        lemma_decimal_injective(a / 10, b / 10);
        vstd::arithmetic::div_mod::lemma_fundamental_div_mod(a, 10);
        vstd::arithmetic::div_mod::lemma_fundamental_div_mod(b, 10);
    }
}

/// Published keys never collide: the counter is embedded before the
/// first separator of the text, and it never repeats, so keys minted
/// for different counter values differ as text whatever the source
/// identifiers were.
pub proof fn lemma_key_texts_collision_free(id1: int, src1: Seq<char>, id2: int, src2: Seq<char>)
    requires
        0 <= id1,
        0 <= id2,
        id1 != id2,
    ensures
        key_text(id1, src1) != key_text(id2, src2),
{
    let d1 = decimal_digits(id1);
    let d2 = decimal_digits(id2);
    let t1 = key_text(id1, src1);
    let t2 = key_text(id2, src2);
    if t1 == t2 {
        lemma_decimal_len(id1);
        lemma_decimal_len(id2);
        if d1.len() < d2.len() {
            assert(t1[d1.len() as int] == '-');
            assert(t2[d1.len() as int] == d2[d1.len() as int]);
            lemma_decimal_no_hyphen(id2, d1.len() as int);
        } else if d2.len() < d1.len() {
            assert(t2[d2.len() as int] == '-');
            assert(t1[d2.len() as int] == d1[d2.len() as int]);
            lemma_decimal_no_hyphen(id1, d2.len() as int);
        } else {
            assert forall|i: int| 0 <= i < d1.len() implies d1[i] == d2[i] by {
                assert(t1[i] == d1[i]);
                assert(t2[i] == d2[i]);
            }
            assert(d1 =~= d2);
            lemma_decimal_injective(id1, id2);
        }
    }
}

/// Identifiers identify: a well-formed registry never carries one
/// identifier in two rows, so the row a key resolves to is unique.
pub proof fn lemma_key_identifies_entry(c: Cache, i: int, j: int)
    requires
        c.wf(),
        0 <= i < c.entries@.len(),
        0 <= j < c.entries@.len(),
        c.entries@[i].id == c.entries@[j].id,
    ensures
        i == j,
{
    if i < j {
        assert(c.entries@[i].id < c.entries@[j].id);
    }
    if j < i {
        assert(c.entries@[j].id < c.entries@[i].id);
    }
}

/// A key whose identifier has left the registry stays unresolvable: a
/// publication resolves only the fresh identifier it returns, and a
/// lookup never adds rows.
pub proof fn lemma_stale_key_stays_stale(pre: Cache, post: Cache, stale: u64, fresh: u64)
    requires
        pre.wf(),
        stale < pre.next_id,
        !pre.resolves(stale),
        // what `insert` guarantees of the registry it leaves behind
        post.next_id == pre.next_id + 1,
        post.entries@.len() == pre.entries@.len() + 1,
        forall|i: int| 0 <= i < pre.entries@.len() ==> post.entries@[i] == pre.entries@[i],
        post.entries@.last().id == fresh,
        fresh == pre.next_id,
    ensures
        !post.resolves(stale),
        stale < post.next_id,
{
    assert forall|i: int| 0 <= i < post.entries@.len() implies (#[trigger] post.entries@[i].id)
        != stale by {
        if i < pre.entries@.len() {
            assert(pre.entries@[i] == post.entries@[i]);
            assert(!pre.resolves(stale));
        }
    }
}

} // verus!
