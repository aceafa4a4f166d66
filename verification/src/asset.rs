use vstd::prelude::*;
use crate::amount::{units_text, Amount};
use crate::error::{CrownError, CrownResult};
use crate::idmap::IdMap;
use crate::ids::AssetId;
use crate::text::{blank, decimal, is_blank, to_upper, upper};

verus! {

/// Description of an underlying asset.
#[derive(Debug, Clone)]
pub struct AssetMetadata {
    id: AssetId,
    symbol: String,
    name: String,
    decimals: u8,
    minimum_redemption: Amount,
}

impl AssetMetadata {
    pub closed spec fn spec_id(&self) -> AssetId {
        self.id
    }

    pub closed spec fn spec_symbol(&self) -> Seq<char> {
        self.symbol@
    }

    pub closed spec fn spec_name(&self) -> Seq<char> {
        self.name@
    }

    pub closed spec fn spec_decimals(&self) -> u8 {
        self.decimals
    }

    pub closed spec fn spec_minimum_redemption(&self) -> Amount {
        self.minimum_redemption
    }

    /// Decimals never exceed the protocol range.
    pub open spec fn wf(&self) -> bool {
        self.spec_decimals() <= 18
    }

    /// Fails with `InvalidPolicy` when the symbol is blank or the decimals
    /// exceed 18 (checked in that order).
    pub fn new(
        id: AssetId,
        symbol: &str,
        name: &str,
        decimals: u8,
        minimum_redemption: Amount,
    ) -> (r: CrownResult<Self>)
        ensures
            blank(symbol@) ==> (r matches Err(e) && e is InvalidPolicy && e.spec_detail()
                == "asset symbol is empty"@),
            !blank(symbol@) && decimals > 18 ==> (r matches Err(e) && e is InvalidPolicy
                && e.spec_detail() == "asset decimals exceed protocol range"@),
            !blank(symbol@) && decimals <= 18 ==> (r matches Ok(m) && m.wf() && m.spec_id() == id
                && m.spec_symbol() == symbol@ && m.spec_name() == name@ && m.spec_decimals()
                == decimals && m.spec_minimum_redemption() == minimum_redemption),
    {
        if is_blank(symbol) {
            return Err(CrownError::InvalidPolicy(String::from_str("asset symbol is empty")));
        }
        if decimals > 18 {
            return Err(
                CrownError::InvalidPolicy(String::from_str("asset decimals exceed protocol range")),
            );
        }
        Ok(
            AssetMetadata {
                id,
                symbol: String::from_str(symbol),
                name: String::from_str(name),
                decimals,
                minimum_redemption,
            },
        )
    }

    pub fn id(&self) -> (r: AssetId)
        ensures
            r == self.spec_id(),
    {
        self.id
    }

    pub fn symbol(&self) -> (r: &str)
        ensures
            r@ == self.spec_symbol(),
    {
        self.symbol.as_str()
    }

    pub fn name(&self) -> (r: &str)
        ensures
            r@ == self.spec_name(),
    {
        self.name.as_str()
    }

    pub fn decimals(&self) -> (r: u8)
        ensures
            r == self.spec_decimals(),
    {
        self.decimals
    }

    pub fn minimum_redemption(&self) -> (r: Amount)
        ensures
            r == self.spec_minimum_redemption(),
    {
        self.minimum_redemption
    }

    /// The amount in units of the asset followed by its symbol.
    pub fn format_amount(&self, amount: Amount) -> (r: String)
        requires
            self.wf(),
        ensures
            r@ == units_text(amount@, self.spec_decimals() as nat) + " "@ + self.spec_symbol(),
    {
        amount.format_units(self.decimals).concat(" ").concat(self.symbol.as_str())
    }
}

/// All assets, by identifier. No two assets share a symbol up to ASCII case.
#[derive(Debug, Clone)]
pub struct AssetRegistry {
    assets: IdMap<AssetMetadata>,
}

impl AssetRegistry {
    pub closed spec fn spec_assets(&self) -> Map<u64, AssetMetadata> {
        self.assets.view()
    }

    pub closed spec fn spec_entries(&self) -> Seq<(u64, AssetMetadata)> {
        self.assets.entries()
    }

    pub closed spec fn wf(&self) -> bool {
        &&& self.assets.wf()
        &&& forall|i: int|
            0 <= i < self.assets.entries().len() ==> (#[trigger] self.assets.entries()[i]).1.spec_id()@
                == self.assets.entries()[i].0 && self.assets.entries()[i].1.wf()
        &&& forall|i: int, j: int|
            0 <= i < j < self.assets.entries().len() ==> upper(
                (#[trigger] self.assets.entries()[i]).1.spec_symbol(),
            ) != upper((#[trigger] self.assets.entries()[j]).1.spec_symbol())
    }

    /// Some asset's symbol equals `symbol` up to ASCII case.
    pub open spec fn has_symbol(&self, symbol: Seq<char>) -> bool {
        exists|i: int|
            0 <= i < self.spec_entries().len() && upper(
                (#[trigger] self.spec_entries()[i]).1.spec_symbol(),
            ) == upper(symbol)
    }

    pub proof fn lemma_wf(&self)
        requires
            self.wf(),
        ensures
            forall|k: u64| #[trigger]
                self.spec_assets().contains_key(k) ==> self.spec_assets()[k].spec_id()@ == k
                    && self.spec_assets()[k].wf(),
    {
        assert forall|k: u64| #[trigger] self.spec_assets().contains_key(k) implies self.spec_assets()[k].spec_id()@ == k
            && self.spec_assets()[k].wf() by {
            let i = self.assets.lemma_key(k);
        }
    }

    pub fn new() -> (r: Self)
        ensures
            r.wf(),
            r.spec_assets() == Map::<u64, AssetMetadata>::empty(),
            r.spec_entries().len() == 0,
    {
        AssetRegistry { assets: IdMap::new() }
    }

    /// Adds the asset; fails with `DuplicateAsset` when its identifier or
    /// (case-insensitively) its symbol is taken.
    pub fn insert(&mut self, metadata: AssetMetadata) -> (r: CrownResult<()>)
        requires
            old(self).wf(),
            metadata.wf(),
        ensures
            final(self).wf(),
            old(self).spec_assets().contains_key(metadata.spec_id()@) ==> (r matches Err(e)
                && e is DuplicateAsset && e.spec_detail() == "asset-"@ + decimal(metadata.spec_id()@ as nat)
                && *final(self) == *old(self)),
            !old(self).spec_assets().contains_key(metadata.spec_id()@) && old(self).has_symbol(
                metadata.spec_symbol(),
            ) ==> (r matches Err(e) && e is DuplicateAsset && e.spec_detail() == upper(
                metadata.spec_symbol(),
            ) && *final(self) == *old(self)),
            !old(self).spec_assets().contains_key(metadata.spec_id()@) && !old(self).has_symbol(
                metadata.spec_symbol(),
            ) ==> (r is Ok && final(self).spec_assets() == old(self).spec_assets().insert(
                metadata.spec_id()@,
                metadata,
            )),
    {
        let id = metadata.id();
        if self.assets.contains_key(id.raw()) {
            return Err(CrownError::DuplicateAsset(id.label()));
        }
        let key = to_upper(metadata.symbol());
        let n = self.assets.len();
        let mut i: usize = 0;
        while i < n
            invariant
                self.wf(),
                n == self.spec_entries().len(),
                key@ == upper(metadata.spec_symbol()),
                !self.spec_assets().contains_key(metadata.spec_id()@),
                i <= n,
                forall|j: int| 0 <= j < i ==> upper((#[trigger] self.spec_entries()[j]).1.spec_symbol()) != key@,
            decreases n - i,
        {
            let (_, existing) = self.assets.entry_at(i);
            let other = to_upper(existing.symbol());
            if crate::text::str_eq(other.as_str(), key.as_str()) {
                return Err(CrownError::DuplicateAsset(key));
            }
            i = i + 1;
        }
        let ghost old_entries = self.assets.entries();
        self.assets.insert(id.raw(), metadata);
        proof {
            let p = choose|p: int| 0 <= p <= old_entries.len() && self.assets.entries() == old_entries.insert(p, (id@, metadata));
            let s = self.assets.entries();
            assert forall|a: int| 0 <= a < s.len() implies (#[trigger] s[a]).1.spec_id()@ == s[a].0 && s[a].1.wf() by {
                if a < p { assert(s[a] == old_entries[a]); } else if a > p { assert(s[a] == old_entries[a - 1]); }
            }
            assert forall|a: int, b: int| 0 <= a < b < s.len() implies upper((#[trigger] s[a]).1.spec_symbol()) != upper((#[trigger] s[b]).1.spec_symbol()) by {
                if b < p {
                    assert(s[a] == old_entries[a] && s[b] == old_entries[b]);
                } else if b == p {
                    assert(s[a] == old_entries[a]);
                } else if a < p {
                    assert(s[a] == old_entries[a] && s[b] == old_entries[b - 1]);
                } else if a == p {
                    assert(s[b] == old_entries[b - 1]);
                } else {
                    assert(s[a] == old_entries[a - 1] && s[b] == old_entries[b - 1]);
                }
            }
        }
        Ok(())
    }

    /// Fails with `MissingAsset` when no asset has the identifier.
    pub fn get(&self, id: AssetId) -> (r: CrownResult<&AssetMetadata>)
        requires
            self.wf(),
        ensures
            self.spec_assets().contains_key(id@) ==> (r matches Ok(a) && *a == self.spec_assets()[id@]),
            !self.spec_assets().contains_key(id@) ==> (r matches Err(e) && e is MissingAsset && e.spec_detail()
                == "asset-"@ + decimal(id@ as nat)),
    {
        match self.assets.get(id.raw()) {
            Some(a) => Ok(a),
            None => Err(CrownError::MissingAsset(id.label())),
        }
    }

    /// The asset whose symbol equals `symbol` up to ASCII case; fails with
    /// `MissingAsset` when there is none.
    pub fn get_by_symbol(&self, symbol: &str) -> (r: CrownResult<&AssetMetadata>)
        requires
            self.wf(),
        ensures
            self.has_symbol(symbol@) ==> (r matches Ok(a) && self.spec_assets().contains_key(a.spec_id()@)
                && self.spec_assets()[a.spec_id()@] == *a && upper(a.spec_symbol()) == upper(symbol@)),
            !self.has_symbol(symbol@) ==> (r matches Err(e) && e is MissingAsset && e.spec_detail()
                == symbol@),
    {
        let key = to_upper(symbol);
        let n = self.assets.len();
        let mut i: usize = 0;
        while i < n
            invariant
                self.wf(),
                n == self.spec_entries().len(),
                key@ == upper(symbol@),
                i <= n,
                forall|j: int| 0 <= j < i ==> upper((#[trigger] self.spec_entries()[j]).1.spec_symbol()) != key@,
            decreases n - i,
        {
            let (_, existing) = self.assets.entry_at(i);
            let other = to_upper(existing.symbol());
            if crate::text::str_eq(other.as_str(), key.as_str()) {
                proof { self.assets.lemma_entry(i as int); }
                return Ok(existing);
            }
            i = i + 1;
        }
        Err(CrownError::MissingAsset(String::from_str(symbol)))
    }

    pub fn contains(&self, id: AssetId) -> (r: bool)
        requires
            self.wf(),
        ensures
            r == self.spec_assets().contains_key(id@),
    {
        self.assets.contains_key(id.raw())
    }

    pub fn len(&self) -> (r: usize)
        ensures
            r == self.spec_entries().len(),
    {
        self.assets.len()
    }

    pub fn is_empty(&self) -> (r: bool)
        ensures
            r == (self.spec_entries().len() == 0),
    {
        self.assets.len() == 0
    }

    /// All assets in increasing identifier order.
    pub fn all(&self) -> (r: Vec<&AssetMetadata>)
        ensures
            r@.len() == self.spec_entries().len(),
            forall|i: int| 0 <= i < r@.len() ==> *(#[trigger] r@[i]) == self.spec_entries()[i].1,
    {
        let mut out: Vec<&AssetMetadata> = Vec::new();
        let mut i: usize = 0;
        while i < self.assets.len()
            invariant
                i <= self.spec_entries().len(),
                out@.len() == i,
                forall|j: int| 0 <= j < i ==> *(#[trigger] out@[j]) == self.spec_entries()[j].1,
            decreases self.spec_entries().len() - i,
        {
            let (_, a) = self.assets.entry_at(i);
            out.push(a);
            i = i + 1;
        }
        out
    }
}

impl Default for AssetRegistry {
    fn default() -> (r: Self)
        ensures
            r.wf(),
            r.spec_assets() == Map::<u64, AssetMetadata>::empty(),
    {
        AssetRegistry::new()
    }
}

} // verus!
