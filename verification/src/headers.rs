//! The header map a request carries and the transformations the proxy makes
//! on it before forwarding: stripping hop-by-hop headers, chaining the
//! forwarded-for header and rewriting the host header.
//!
//! Header names are matched without regard to ASCII case: `set`, `append`
//! and `get` normalize the name to lower case, as an HTTP engine does, and
//! the hop-by-hop check reads every spelling of those names.

use crate::error::Error;
use crate::text::{ascii_lower, spec_ascii_lower, str_eq};
use vstd::pervasive::VecAdditionalExecFns;
use vstd::prelude::*;

verus! {

/// One header: its name and its value.
pub type HeaderEntry = (Seq<char>, Seq<char>);

/// An ordered map of request headers, every name held in ASCII lower case.
/// Entry order is kept; `set` never creates a second entry of one name, while
/// `append` may, for headers a client legitimately repeats.
#[derive(Debug)]
pub struct Headers {
    entries: Vec<(String, String)>,
}

impl View for Headers {
    type V = Seq<HeaderEntry>;

    closed spec fn view(&self) -> Seq<HeaderEntry> {
        self.entries@.map_values(|e: (String, String)| (e.0@, e.1@))
    }
}

/// The position of the first entry named `name`, if any.
pub open spec fn spec_find_name(h: Seq<HeaderEntry>, name: Seq<char>) -> Option<int>
    decreases h.len(),
{
    if h.len() == 0 {
        None
    } else if h[0].0 == name {
        Some(0)
    } else {
        match spec_find_name(h.skip(1), name) {
            Some(i) => Some(i + 1),
            None => None,
        }
    }
}

/// `spec_find_name` returns the first entry of the name: that entry carries
/// the name and no earlier one does, and `None` means no entry carries it.
pub proof fn lemma_spec_find_name_correct(h: Seq<HeaderEntry>, name: Seq<char>)
    ensures
        match spec_find_name(h, name) {
            Some(i) => 0 <= i < h.len() && h[i].0 == name && forall|j: int|
                0 <= j < i ==> h[j].0 != name,
            None => forall|j: int| 0 <= j < h.len() ==> h[j].0 != name,
        },
    decreases h.len(),
{
    if h.len() > 0 && h[0].0 != name {
        lemma_spec_find_name_correct(h.skip(1), name);
        assert(forall|j: int| 1 <= j < h.len() ==> h[j] == h.skip(1)[j - 1]);
    }
}

/// The entries of `h` that do not carry `name`, in order.
pub open spec fn spec_drop_name(h: Seq<HeaderEntry>, name: Seq<char>) -> Seq<HeaderEntry> {
    h.filter(|e: HeaderEntry| e.0 != name)
}

/// Every entry left by dropping a name stood in the map before.
pub proof fn lemma_drop_name_from(h: Seq<HeaderEntry>, name: Seq<char>)
    ensures
        forall|k: int|
            0 <= k < spec_drop_name(h, name).len() ==> h.contains(
                #[trigger] spec_drop_name(h, name)[k],
            ),
    decreases h.len(),
{
    reveal(Seq::filter);
    if h.len() > 0 {
        lemma_drop_name_from(h.drop_last(), name);
        let d = spec_drop_name(h, name);
        let dr = spec_drop_name(h.drop_last(), name);
        assert forall|k: int| 0 <= k < d.len() implies h.contains(d[k]) by {
            if h.last().0 != name && k == dr.len() {
                assert(d[k] == h.last());
                assert(h[h.len() - 1] == h.last());
            } else {
                assert(d[k] == dr[k]);
                let j = choose|j: int|
                    0 <= j < h.drop_last().len() && #[trigger] h.drop_last()[j] == dr[k];
                assert(h[j] == dr[k]);
            }
        }
    }
}

/// What `set` leaves in the map: the first entry of the name bears the new
/// value in its place, every later entry of the name is removed, and a new
/// entry stands at the end when none carried the name — one entry of the name
/// either way, the way an HTTP engine's insert leaves one value.
pub open spec fn spec_set(h: Seq<HeaderEntry>, name: Seq<char>, value: Seq<char>) -> Seq<
    HeaderEntry,
> {
    match spec_find_name(h, name) {
        Some(i) => h.subrange(0, i) + seq![(name, value)] + spec_drop_name(h.skip(i + 1), name),
        None => h.push((name, value)),
    }
}

/// Every entry `set` leaves is the written entry or one the map already held.
pub proof fn lemma_set_entries_from(h: Seq<HeaderEntry>, name: Seq<char>, value: Seq<char>)
    ensures
        forall|k: int|
            0 <= k < spec_set(h, name, value).len() ==> (#[trigger] spec_set(h, name, value)[k]
                == (name, value) || h.contains(spec_set(h, name, value)[k])),
{
    lemma_spec_find_name_correct(h, name);
    let r = spec_set(h, name, value);
    match spec_find_name(h, name) {
        Some(i) => {
            lemma_drop_name_from(h.skip(i + 1), name);
            assert forall|k: int| 0 <= k < r.len() implies (r[k] == (name, value) || h.contains(
                r[k],
            )) by {
                if k < i {
                    assert(r[k] == h[k]);
                } else if k > i {
                    let d = spec_drop_name(h.skip(i + 1), name);
                    assert(r[k] == d[k - i - 1]);
                    assert(h.skip(i + 1).contains(d[k - i - 1]));
                    let j = choose|j: int|
                        0 <= j < h.skip(i + 1).len() && #[trigger] h.skip(i + 1)[j] == d[k - i
                            - 1];
                    assert(h[j + i + 1] == d[k - i - 1]);
                }
            }
        },
        None => {
            assert(forall|k: int| 0 <= k < h.len() ==> r[k] == h[k] && h.contains(#[trigger] h[k]));
        },
    }
}

impl Headers {
    /// A map without entries.
    pub fn new() -> (r: Headers)
        ensures
            r@ == Seq::<HeaderEntry>::empty(),
    {
        let r = Headers { entries: Vec::new() };
        proof {
            assert(r@ =~= Seq::<HeaderEntry>::empty());
        }
        r
    }

    /// How many entries the map holds.
    pub fn len(&self) -> (r: usize)
        ensures
            r == self@.len(),
    {
        self.entries.len()
    }

    /// The entries in order, for handing the headers on to an HTTP engine.
    pub fn entries(&self) -> (r: &Vec<(String, String)>)
        ensures
            r@.map_values(|e: (String, String)| (e.0@, e.1@)) == self@,
    {
        &self.entries
    }

    /// The value of the first entry named `name`, compared without regard to
    /// ASCII case, if any.
    pub fn get(&self, name: &str) -> (r: Option<&String>)
        ensures
            match r {
                Some(v) => spec_find_name(self@, spec_ascii_lower(name@)) matches Some(i) && v@
                    == self@[i].1,
                None => spec_find_name(self@, spec_ascii_lower(name@)) is None,
            },
    {
        let lower = ascii_lower(name);
        proof {
            lemma_spec_find_name_correct(self@, lower@);
        }
        let n = self.entries.len();
        let mut i: usize = 0;
        while i < n
            invariant
                i <= n,
                n == self@.len(),
                lower@ == spec_ascii_lower(name@),
                forall|j: int| 0 <= j < i ==> self@[j].0 != lower@,
                match spec_find_name(self@, lower@) {
                    Some(k) => 0 <= k < self@.len() && self@[k].0 == lower@ && forall|j: int|
                        0 <= j < k ==> self@[j].0 != lower@,
                    None => forall|j: int| 0 <= j < self@.len() ==> self@[j].0 != lower@,
                },
            decreases n - i,
        {
            proof {
                assert(self@[i as int] == (self.entries@[i as int].0@, self.entries@[i as int].1@));
            }
            if str_eq(self.entries[i].0.as_str(), lower.as_str()) {
                proof {
                    assert(spec_find_name(self@, lower@) == Some(i as int));
                }
                return Some(&self.entries[i].1);
            }
            i = i + 1;
        }
        None
    }

    /// Gives the name the single value `value`: the first entry of the name,
    /// compared without regard to ASCII case, bears the new value in its
    /// place, every later entry of the name is removed, and a new entry is
    /// added at the end when none carried the name. The name is stored in
    /// lower case.
    pub fn set(&mut self, name: &str, value: String)
        ensures
            final(self)@ == spec_set(old(self)@, spec_ascii_lower(name@), value@),
    {
        let lower = ascii_lower(name);
        proof {
            lemma_spec_find_name_correct(self@, lower@);
            assert(old(self)@.take(0) =~= Seq::<HeaderEntry>::empty());
        }
        let n = self.entries.len();
        let mut kept: Vec<(String, String)> = Vec::new();
        let mut found = false;
        let ghost mut f: int = 0;
        let mut i: usize = 0;
        while i < n
            invariant
                i <= n,
                n == old(self)@.len(),
                *self == *old(self),
                lower@ == spec_ascii_lower(name@),
                match spec_find_name(old(self)@, lower@) {
                    Some(k) => 0 <= k < old(self)@.len() && old(self)@[k].0 == lower@ && forall|
                        j: int,
                    |
                        0 <= j < k ==> old(self)@[j].0 != lower@,
                    None => forall|j: int| 0 <= j < old(self)@.len() ==> old(self)@[j].0 != lower@,
                },
                !found ==> {
                    &&& forall|j: int| 0 <= j < i ==> old(self)@[j].0 != lower@
                    &&& kept@.map_values(|e: (String, String)| (e.0@, e.1@)) == old(self)@.take(
                        i as int,
                    )
                },
                found ==> {
                    &&& 0 <= f < i
                    &&& spec_find_name(old(self)@, lower@) == Some(f)
                    &&& kept@.map_values(|e: (String, String)| (e.0@, e.1@)) == old(self)@.subrange(
                        0,
                        f,
                    ) + seq![(lower@, value@)] + spec_drop_name(
                        old(self)@.subrange(f + 1, i as int),
                        lower@,
                    )
                },
            decreases n - i,
        {
            proof {
                reveal(Seq::filter);
                assert(self@[i as int] == (self.entries@[i as int].0@, self.entries@[i as int].1@));
            }
            if str_eq(self.entries[i].0.as_str(), lower.as_str()) {
                if !found {
                    kept.push((lower.clone(), value.clone()));
                    found = true;
                    proof {
                        f = i as int;
                        assert(spec_find_name(old(self)@, lower@) == Some(f));
                        assert(old(self)@.subrange(f + 1, i + 1 as int) =~= Seq::<
                            HeaderEntry,
                        >::empty());
                        assert(spec_drop_name(old(self)@.subrange(f + 1, i + 1 as int), lower@)
                            =~= Seq::<HeaderEntry>::empty());
                        assert(kept@.map_values(|e: (String, String)| (e.0@, e.1@))
                            =~= old(self)@.subrange(0, f) + seq![(lower@, value@)]
                            + spec_drop_name(old(self)@.subrange(f + 1, i + 1 as int), lower@));
                    }
                } else {
                    proof {
                        let t1 = old(self)@.subrange(f + 1, i + 1 as int);
                        assert(t1.drop_last() =~= old(self)@.subrange(f + 1, i as int));
                        assert(t1.last() == old(self)@[i as int]);
                        assert(spec_drop_name(t1, lower@) == spec_drop_name(
                            old(self)@.subrange(f + 1, i as int),
                            lower@,
                        ));
                    }
                }
            } else {
                let ghost kv0 = kept@.map_values(|e: (String, String)| (e.0@, e.1@));
                let entry_name = self.entries[i].0.clone();
                let entry_value = self.entries[i].1.clone();
                kept.push((entry_name, entry_value));
                proof {
                    assert(kept@.map_values(|e: (String, String)| (e.0@, e.1@)) =~= kv0.push(
                        old(self)@[i as int],
                    ));
                    if found {
                        let t1 = old(self)@.subrange(f + 1, i + 1 as int);
                        assert(t1.drop_last() =~= old(self)@.subrange(f + 1, i as int));
                        assert(t1.last() == old(self)@[i as int]);
                        assert(spec_drop_name(t1, lower@) == spec_drop_name(
                            old(self)@.subrange(f + 1, i as int),
                            lower@,
                        ).push(old(self)@[i as int]));
                        assert(kv0.push(old(self)@[i as int]) =~= old(self)@.subrange(0, f)
                            + seq![(lower@, value@)] + spec_drop_name(t1, lower@));
                    } else {
                        assert(kv0.push(old(self)@[i as int]) =~= old(self)@.take(i + 1 as int));
                    }
                }
            }
            i = i + 1;
        }
        if !found {
            kept.push((lower, value));
            proof {
                assert(old(self)@.take(n as int) =~= old(self)@);
                assert(kept@.map_values(|e: (String, String)| (e.0@, e.1@)) =~= old(self)@.push(
                    (spec_ascii_lower(name@), value@),
                ));
            }
        } else {
            proof {
                assert(old(self)@.subrange(f + 1, n as int) =~= old(self)@.skip(f + 1));
            }
        }
        self.entries = kept;
    }

    /// Adds one entry at the end whatever the map already holds, the name
    /// stored in lower case, keeping every value of a header a client
    /// legitimately repeats.
    pub fn append(&mut self, name: &str, value: String)
        ensures
            final(self)@ == old(self)@.push((spec_ascii_lower(name@), value@)),
    {
        let lower = ascii_lower(name);
        self.entries.push((lower, value));
        proof {
            assert(self@ =~= old(self)@.push((spec_ascii_lower(name@), value@)));
        }
    }
}

/// Whether `name` is one of the hop-by-hop header names, which are meaningful
/// only for one connection leg and must not cross a proxy boundary.
pub open spec fn is_hop_by_hop(name: Seq<char>) -> bool {
    ||| name == "connection"@
    ||| name == "keep-alive"@
    ||| name == "proxy-authenticate"@
    ||| name == "proxy-authorization"@
    ||| name == "te"@
    ||| name == "trailer"@
    ||| name == "transfer-encoding"@
    ||| name == "upgrade"@
}

/// The map without its hop-by-hop entries, matched without regard to ASCII
/// case; other entries stay, in order.
pub open spec fn spec_strip_hop_by_hop(h: Seq<HeaderEntry>) -> Seq<HeaderEntry> {
    h.filter(|e: HeaderEntry| !is_hop_by_hop(spec_ascii_lower(e.0)))
}

/// Whether `name` spells one of the hop-by-hop header names, in any ASCII
/// case.
fn is_hop_by_hop_name(name: &str) -> (r: bool)
    ensures
        r == is_hop_by_hop(spec_ascii_lower(name@)),
{
    let lower = ascii_lower(name);
    let l = lower.as_str();
    str_eq(l, "connection") || str_eq(l, "keep-alive") || str_eq(l, "proxy-authenticate")
        || str_eq(l, "proxy-authorization") || str_eq(l, "te") || str_eq(l, "trailer")
        || str_eq(l, "transfer-encoding") || str_eq(l, "upgrade")
}

/// Removes every hop-by-hop header, whatever its spelling's case; all other
/// entries stay, in order.
pub fn strip_hop_by_hop_headers(headers: &mut Headers)
    ensures
        final(headers)@ == spec_strip_hop_by_hop(old(headers)@),
{
    let n = headers.entries.len();
    let mut kept: Vec<(String, String)> = Vec::new();
    let mut i: usize = 0;
    proof {
        reveal(Seq::filter);
        assert(old(headers)@.take(0) =~= Seq::<HeaderEntry>::empty());
    }
    while i < n
        invariant
            i <= n,
            n == old(headers)@.len(),
            *headers == *old(headers),
            headers@ == headers.entries@.map_values(|e: (String, String)| (e.0@, e.1@)),
            kept@.map_values(|e: (String, String)| (e.0@, e.1@)) == spec_strip_hop_by_hop(
                old(headers)@.take(i as int),
            ),
        decreases n - i,
    {
        let ghost t1 = old(headers)@.take(i + 1 as int);
        proof {
            reveal(Seq::filter);
            assert(t1.drop_last() =~= old(headers)@.take(i as int));
            assert(t1.last() == old(headers)@[i as int]);
            assert(headers@[i as int] == (
                headers.entries@[i as int].0@,
                headers.entries@[i as int].1@,
            ));
        }
        if !is_hop_by_hop_name(headers.entries[i].0.as_str()) {
            let name = headers.entries[i].0.clone();
            let value = headers.entries[i].1.clone();
            kept.push((name, value));
        }
        proof {
            assert(kept@.map_values(|e: (String, String)| (e.0@, e.1@)) =~= spec_strip_hop_by_hop(
                t1,
            ));
        }
        i = i + 1;
    }
    headers.entries = kept;
    proof {
        assert(old(headers)@.take(n as int) =~= old(headers)@);
    }
}

/// The outbound value of the forwarded-for chain: the local address alone
/// when the header was absent, the inbound value followed by `", "` and the
/// local address when it was present.
pub open spec fn spec_forwarded_value(h: Seq<HeaderEntry>, addr: Seq<char>) -> Seq<char> {
    match spec_find_name(h, "x-forwarded-for"@) {
        None => addr,
        Some(i) => h[i].1 + ", "@ + addr,
    }
}

/// The map after the forwarded-for chain is extended: an absent
/// `x-forwarded-for` header is set to the local address, a present one gets
/// `", "` and the local address appended, keeping every earlier hop; as with
/// any `set`, one entry of the name remains.
pub open spec fn spec_add_forwarded_for(h: Seq<HeaderEntry>, addr: Seq<char>) -> Seq<HeaderEntry> {
    spec_set(h, "x-forwarded-for"@, spec_forwarded_value(h, addr))
}

/// The two header names the transformer writes are already lower case.
pub proof fn lemma_written_names_lower()
    ensures
        spec_ascii_lower("x-forwarded-for"@) == "x-forwarded-for"@,
        spec_ascii_lower("host"@) == "host"@,
{
    reveal_strlit("x-forwarded-for");
    reveal_strlit("host");
    assert(spec_ascii_lower("x-forwarded-for"@) =~= "x-forwarded-for"@);
    assert(spec_ascii_lower("host"@) =~= "host"@);
}

/// Extends the forwarded-for chain with the proxy's own address: the header
/// is created when absent, and appended to, never replaced, when present.
pub fn add_x_forwarded_for_header(headers: &mut Headers, local_addr: &str) -> (r: Result<
    (),
    Error,
>)
    ensures
        r is Ok,
        final(headers)@ == spec_add_forwarded_for(old(headers)@, local_addr@),
{
    proof {
        lemma_written_names_lower();
    }
    let existing: Option<String> = match headers.get("x-forwarded-for") {
        Some(v) => Some(v.clone()),
        None => None,
    };
    match existing {
        Some(v) => {
            let joined = v.concat(", ").concat(local_addr);
            headers.set("x-forwarded-for", joined);
        },
        None => {
            headers.set("x-forwarded-for", String::from_str(local_addr));
        },
    }
    Ok(())
}

/// Sets the `host` header to the backend's address, replacing whatever the
/// client sent.
pub fn add_host_header(headers: &mut Headers, remote_addr: &str) -> (r: Result<(), Error>)
    ensures
        r is Ok,
        final(headers)@ == spec_set(old(headers)@, "host"@, remote_addr@),
{
    proof {
        lemma_written_names_lower();
    }
    headers.set("host", String::from_str(remote_addr));
    Ok(())
}

/// Law: the forwarded-for chain never loses an earlier hop. When the header
/// was present, its first entry keeps its place and its outbound value is the
/// inbound value followed by `", "` and the proxy's address, any later entry
/// of the name is removed, and every other entry is untouched; when it was
/// absent, the map gains one entry at the end whose value is the address
/// alone.
pub proof fn lemma_forwarded_for_chain(h: Seq<HeaderEntry>, addr: Seq<char>)
    ensures
        spec_find_name(h, "x-forwarded-for"@) matches Some(i) ==> spec_add_forwarded_for(h, addr)
            == h.subrange(0, i) + seq![("x-forwarded-for"@, h[i].1 + ", "@ + addr)]
            + spec_drop_name(h.skip(i + 1), "x-forwarded-for"@),
        spec_find_name(h, "x-forwarded-for"@) is None ==> spec_add_forwarded_for(h, addr)
            == h.push(("x-forwarded-for"@, addr)),
{
}

/// Law: after stripping, no hop-by-hop header remains in the map, under any
/// ASCII spelling of its name.
pub proof fn lemma_strip_removes_hop_by_hop(h: Seq<HeaderEntry>)
    ensures
        forall|i: int|
            0 <= i < spec_strip_hop_by_hop(h).len() ==> !is_hop_by_hop(
                spec_ascii_lower(#[trigger] spec_strip_hop_by_hop(h)[i].0),
            ),
{
    broadcast use Seq::lemma_filter_pred;

}

} // verus!
