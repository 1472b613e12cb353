//! Seller-side Cashu Spilman receiver configuration and its file layout.
use vstd::prelude::*;
use crate::idmap::{sorted_keys, IdMap};
use crate::spilman::StreamingRouteCashuUnit;
use crate::text::{chars_of, same_text, text_lt, trim_text, trimmed};
use crate::textbuf::{append_decimal, decimal, join2};

verus! {

/// Version written into receiver key files.
pub const SPILMAN_RECEIVER_KEY_VERSION: u16 = 1;

/// Trailing `/` characters removed.
pub open spec fn strip_slashes(s: Seq<char>) -> Seq<char>
    decreases s.len(),
{
    if s.len() > 0 && s.last() == '/' {
        strip_slashes(s.drop_last())
    } else {
        s
    }
}

/// `s.trim_end_matches('/')`.
pub fn trim_end_slashes(s: &str) -> (r: String)
    ensures
        r@ == strip_slashes(s@),
{
    let v = chars_of(s);
    let mut hi: usize = v.len();
    assert(s@.take(hi as int) =~= s@);
    while hi > 0 && v[hi - 1] == '/'
        invariant
            v@ == s@,
            hi <= v.len(),
            strip_slashes(s@.take(hi as int)) == strip_slashes(s@),
        decreases hi,
    {
        assert(s@.take(hi as int).drop_last() =~= s@.take(hi - 1));
        hi = hi - 1;
    }
    let sub = s.substring_char(0, hi);
    assert(sub@ =~= s@.take(hi as int));
    sub.to_owned()
}

/// A path name joined under a directory, with one `/` between them.
pub open spec fn join_path(dir: Seq<char>, name: Seq<char>) -> Seq<char> {
    if dir.len() == 0 {
        name
    } else if dir.last() == '/' {
        dir + name
    } else {
        dir + "/"@ + name
    }
}

/// `dir` joined with a relative `name`, as a Unix path.
pub fn path_join(dir: &str, name: &str) -> (r: String)
    ensures
        r@ == join_path(dir@, name@),
{
    let v = chars_of(dir);
    if v.len() == 0 {
        name.to_owned()
    } else if v[v.len() - 1] == '/' {
        join2(dir, name)
    } else {
        let mut s = join2(dir, "/");
        crate::textbuf::append_text(&mut s, name);
        s
    }
}

/// Where the receiver's signing key is kept.
pub fn spilman_receiver_key_path(data_dir: &str) -> (r: String)
    ensures
        r@ == join_path(data_dir@, "spilman-receiver-key.json"@),
{
    path_join(data_dir, "spilman-receiver-key.json")
}

/// Where the receiver's channel store is kept.
pub fn spilman_receiver_store_path(data_dir: &str) -> (r: String)
    ensures
        r@ == join_path(data_dir@, "spilman-receiver.sqlite"@),
{
    path_join(data_dir, "spilman-receiver.sqlite")
}

#[derive(Debug, Clone, PartialEq, Eq)]
pub struct CashuSpilmanReceiverKeyFile {
    pub version: u16,
    pub secret_hex: String,
    pub public_key_hex: String,
}

#[derive(Debug, Clone, PartialEq, Eq)]
pub struct FileSpilmanPaymentReceiverConfig {
    pub accepted_mints: Vec<String>,
    pub units: Vec<String>,
    pub min_capacity: u64,
    pub max_amount_per_output: u64,
    pub min_expiry_seconds: u64,
}

/// The character sequences of a list of texts.
pub open spec fn texts(v: Seq<String>) -> Seq<Seq<char>> {
    v.map_values(|s: String| s@)
}

/// A receiver's mint URL: whitespace trimmed, trailing slashes removed.
pub open spec fn receiver_mint(s: Seq<char>) -> Seq<char> {
    strip_slashes(trimmed(s))
}

/// The distinct, non-empty normalized mints of a list.
pub open spec fn mint_set(ms: Seq<Seq<char>>) -> Set<Seq<char>> {
    Set::new(
        |k: Seq<char>| k.len() > 0 && exists|i: int| 0 <= i < ms.len() && receiver_mint(ms[i]) == k,
    )
}

/// The first unit that fails to parse, or whether sat and msat occur.
pub open spec fn unit_flags(us: Seq<Seq<char>>) -> Result<(bool, bool), Seq<char>>
    decreases us.len(),
{
    if us.len() == 0 {
        Ok((false, false))
    } else {
        match unit_flags(us.drop_last()) {
            Err(m) => Err(m),
            Ok((sat, msat)) => match StreamingRouteCashuUnit::spec_parse(us.last()) {
                Err(m) => Err(m),
                Ok(u) => if u == StreamingRouteCashuUnit::Sat {
                    Ok((true, msat))
                } else {
                    Ok((sat, true))
                },
            },
        }
    }
}

/// The sorted distinct unit names, or whole sats when none is configured.
pub open spec fn unit_list(sat: bool, msat: bool) -> Seq<Seq<char>> {
    if !sat && !msat {
        seq!["sat"@]
    } else if sat && msat {
        seq!["msat"@, "sat"@]
    } else if sat {
        seq!["sat"@]
    } else {
        seq!["msat"@]
    }
}

pub fn default_spilman_receiver_units() -> (r: Vec<String>)
    ensures
        texts(r@) == seq!["sat"@],
{
    let mut v = Vec::new();
    v.push(StreamingRouteCashuUnit::Sat.as_str().to_owned());
    assert(texts(v@) =~= seq!["sat"@]);
    v
}

pub fn default_spilman_receiver_min_capacity() -> (r: u64)
    ensures
        r == 1,
{
    1
}

/// `s` trimmed, without trailing slashes.
fn normalize_mint_url(value: &str) -> (r: String)
    ensures
        r@ == receiver_mint(value@),
{
    let t = trim_text(value);
    trim_end_slashes(t.as_str())
}

impl FileSpilmanPaymentReceiverConfig {
    /// A configuration for the given mints with the default unit and
    /// capacity and no per-output or expiry limits.
    pub fn new(accepted_mints: Vec<String>) -> (r: Self)
        ensures
            r.accepted_mints == accepted_mints,
            texts(r.units@) == seq!["sat"@],
            r.min_capacity == 1,
            r.max_amount_per_output == 0,
            r.min_expiry_seconds == 0,
    {
        FileSpilmanPaymentReceiverConfig {
            accepted_mints,
            units: default_spilman_receiver_units(),
            min_capacity: default_spilman_receiver_min_capacity(),
            max_amount_per_output: 0,
            min_expiry_seconds: 0,
        }
    }

    /// Mints normalized, deduplicated and sorted; units parsed, deduplicated
    /// and sorted (whole sats when none); minimum capacity at least one.
    pub fn normalized(&self) -> (r: Result<Self, String>)
        ensures
            ({
                let ms = mint_set(texts(self.accepted_mints@));
                if ms == Set::<Seq<char>>::empty() {
                    r matches Err(e) && e@
                        == "Cashu Spilman receiver requires at least one accepted mint"@
                } else {
                    match unit_flags(texts(self.units@)) {
                        Err(m) => r matches Err(e) && e@ == m,
                        Ok((sat, msat)) => r matches Ok(c) && {
                            let out = texts(c.accepted_mints@);
                            &&& forall|a: int, b: int|
                                0 <= a < b < out.len() ==> text_lt(#[trigger] out[a], #[trigger] out[b])
                            &&& forall|k: Seq<char>| out.contains(k) <==> ms.contains(k)
                            &&& texts(c.units@) == unit_list(sat, msat)
                            &&& c.min_capacity == (if self.min_capacity == 0 {
                                1
                            } else {
                                self.min_capacity
                            })
                            &&& c.max_amount_per_output == self.max_amount_per_output
                            &&& c.min_expiry_seconds == self.min_expiry_seconds
                        },
                    }
                }
            }),
    {
        let ghost all = texts(self.accepted_mints@);
        let mut table: IdMap<()> = IdMap::new();
        let mut i: usize = 0;
        while i < self.accepted_mints.len()
            invariant
                i <= self.accepted_mints.len(),
                all == texts(self.accepted_mints@),
                table@.dom() == mint_set(all.take(i as int)),
            decreases self.accepted_mints.len() - i,
        {
            let n = normalize_mint_url(self.accepted_mints[i].as_str());
            let ghost before = table@.dom();
            let ghost nk = n@;
            if !n.as_str().is_empty() {
                table.insert(n, ());
            }
            proof {
                let p = all.take(i as int);
                let q = all.take(i + 1);
                assert(q[i as int] == self.accepted_mints@[i as int]@);
                assert forall|k: Seq<char>| #[trigger] mint_set(q).contains(k) == table@.dom().contains(
                    k,
                ) by {
                    if mint_set(q).contains(k) {
                        let j = choose|j: int| 0 <= j < q.len() && receiver_mint(q[j]) == k;
                        if j < i {
                            assert(p[j] == q[j]);
                            assert(mint_set(p).contains(k));
                        }
                    }
                    if mint_set(p).contains(k) {
                        let j = choose|j: int| 0 <= j < p.len() && receiver_mint(p[j]) == k;
                        assert(q[j] == p[j]);
                    }
                }
                assert(mint_set(q) =~= table@.dom());
            }
            i = i + 1;
        }
        assert(all.take(i as int) =~= all);
        if table.len() == 0 {
            proof {
                assert(table@.dom() =~= Set::<Seq<char>>::empty());
            }
            return Err("Cashu Spilman receiver requires at least one accepted mint".to_owned());
        }
        proof {
            use_type_invariant(&table);
            table.lemma_facts();
            assert(table@.dom().contains(table.pairs()[0].0));
            assert(mint_set(all) != Set::<Seq<char>>::empty());
        }
        let ghost units_all = texts(self.units@);
        let mut sat = false;
        let mut msat = false;
        let mut j: usize = 0;
        while j < self.units.len()
            invariant
                j <= self.units.len(),
                units_all == texts(self.units@),
                mint_set(texts(self.accepted_mints@)) != Set::<Seq<char>>::empty(),
                unit_flags(units_all.take(j as int)) == Ok::<(bool, bool), Seq<char>>((sat, msat)),
            decreases self.units.len() - j,
        {
            proof {
                assert(units_all.take(j + 1).drop_last() =~= units_all.take(j as int));
                assert(units_all.take(j + 1).last() == self.units@[j as int]@);
            }
            match StreamingRouteCashuUnit::parse(self.units[j].as_str()) {
                Err(e) => {
                    proof {
                        lemma_unit_error_persists(units_all, j as int + 1, e@);
                    }
                    return Err(e);
                },
                Ok(StreamingRouteCashuUnit::Sat) => {
                    sat = true;
                },
                Ok(StreamingRouteCashuUnit::Msat) => {
                    msat = true;
                },
            }
            j = j + 1;
        }
        assert(units_all.take(j as int) =~= units_all);
        let mut units: Vec<String> = Vec::new();
        if msat {
            units.push(StreamingRouteCashuUnit::Msat.as_str().to_owned());
        }
        if sat || !msat {
            units.push(StreamingRouteCashuUnit::Sat.as_str().to_owned());
        }
        assert(texts(units@) =~= unit_list(sat, msat));
        proof {
            use_type_invariant(&table);
            table.lemma_facts();
        }
        let mut mints: Vec<String> = Vec::new();
        let mut t: usize = 0;
        let n = table.len();
        while t < n
            invariant
                t <= n,
                n == table.pairs().len(),
                mints@.len() == t,
                forall|a: int| 0 <= a < t ==> #[trigger] mints@[a]@ == table.pairs()[a].0,
            decreases n - t,
        {
            mints.push(table.key_at(t).clone());
            t = t + 1;
        }
        let ghost out = texts(mints@);
        proof {
            assert forall|a: int, b: int| 0 <= a < b < out.len() implies text_lt(
                #[trigger] out[a],
                #[trigger] out[b],
            ) by {
                assert(out[a] == mints@[a]@);
                assert(out[b] == mints@[b]@);
                assert(sorted_keys(table.pairs()));
            }
            assert forall|k: Seq<char>| out.contains(k) <==> mint_set(all).contains(k) by {
                if out.contains(k) {
                    let a = choose|a: int| 0 <= a < out.len() && out[a] == k;
                    assert(out[a] == mints@[a]@);
                    assert(table@.contains_key(table.pairs()[a].0));
                }
                if mint_set(all).contains(k) {
                    assert(table@.contains_key(k));
                    let a = choose|a: int| 0 <= a < table.pairs().len() && #[trigger] table.pairs()[a].0 == k;
                    assert(out[a] == mints@[a]@);
                }
            }
        }
        let min_capacity = if self.min_capacity == 0 {
            1
        } else {
            self.min_capacity
        };
        Ok(
            FileSpilmanPaymentReceiverConfig {
                accepted_mints: mints,
                units,
                min_capacity,
                max_amount_per_output: self.max_amount_per_output,
                min_expiry_seconds: self.min_expiry_seconds,
            },
        )
    }
}

proof fn lemma_unit_error_persists(all: Seq<Seq<char>>, k: int, m: Seq<char>)
    requires
        0 < k <= all.len(),
        StreamingRouteCashuUnit::spec_parse(all.take(k).last()) == Err::<StreamingRouteCashuUnit, Seq<char>>(m),
        unit_flags(all.take(k).drop_last()) is Ok,
    ensures
        unit_flags(all) == Err::<(bool, bool), Seq<char>>(m),
    decreases all.len() - k,
{
    if k < all.len() {
        assert(all.take(k + 1).drop_last() =~= all.take(k));
        lemma_unit_flags_error_persists(all, k + 1, m);
    } else {
        assert(all.take(k) =~= all);
    }
}

proof fn lemma_unit_flags_error_persists(all: Seq<Seq<char>>, k: int, m: Seq<char>)
    requires
        0 < k <= all.len(),
        unit_flags(all.take(k).drop_last()) == Err::<(bool, bool), Seq<char>>(m),
    ensures
        unit_flags(all) == Err::<(bool, bool), Seq<char>>(m),
    decreases all.len() - k,
{
    if k < all.len() {
        assert(all.take(k + 1).drop_last() =~= all.take(k));
        lemma_unit_flags_error_persists(all, k + 1, m);
    } else {
        assert(all.take(k) =~= all);
    }
}

/// Checks a stored receiver key: it must be of the current version, and the
/// public key derived from its secret (`derived`, or why derivation failed)
/// must be the one it records.
pub fn check_receiver_key(key: &CashuSpilmanReceiverKeyFile, derived: Result<String, String>) -> (r: Result<
    (),
    String,
>)
    ensures
        key.version != SPILMAN_RECEIVER_KEY_VERSION ==> (r matches Err(e) && e@
            == "unsupported Spilman receiver key version "@ + decimal(key.version as nat)),
        key.version == SPILMAN_RECEIVER_KEY_VERSION ==> match derived {
            Err(d) => r == Err::<(), String>(d),
            Ok(p) => if p@ == key.public_key_hex@ {
                r is Ok
            } else {
                r matches Err(e) && e@ == "Spilman receiver key public key does not match secret"@
            },
        },
{
    if key.version != SPILMAN_RECEIVER_KEY_VERSION {
        let mut m = "unsupported Spilman receiver key version ".to_owned();
        append_decimal(&mut m, key.version as u64);
        return Err(m);
    }
    let public_key_hex = derived?;
    if !same_text(public_key_hex.as_str(), key.public_key_hex.as_str()) {
        return Err("Spilman receiver key public key does not match secret".to_owned());
    }
    Ok(())
}

} // verus!
