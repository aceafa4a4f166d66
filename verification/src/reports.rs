use vstd::prelude::*;
use crate::accounts::{Account, AccountTier};
use crate::amount::{amount_max, Amount};
use crate::engine::CrownEngine;
use crate::error::{CrownError, CrownResult};
use crate::ids::{AccountId, AssetId, RedemptionId, VaultId};
use crate::priority::{open_claim_seq, PriorityClaim};
use crate::queue::{lane_count, queued_amount, Lane};
use crate::text::{decimal, decimal_string, push_char};
use crate::vault::{status_count, RedemptionStatus, VaultState};

verus! {

broadcast use crate::amount::group_amount;

/// The JSON escape of one character: quote, backslash, newline, carriage
/// return and tab get a backslash sequence, anything else stands as is.
pub open spec fn escape_char(c: char) -> Seq<char> {
    if c == '"' {
        "\\\""@
    } else if c == '\\' {
        "\\\\"@
    } else if c == '\n' {
        "\\n"@
    } else if c == '\r' {
        "\\r"@
    } else if c == '\t' {
        "\\t"@
    } else {
        seq![c]
    }
}

/// The JSON escape of a text, character by character.
pub open spec fn escaped(s: Seq<char>) -> Seq<char>
    decreases s.len(),
{
    if s.len() == 0 {
        Seq::empty()
    } else {
        escaped(s.drop_last()) + escape_char(s.last())
    }
}

/// A JSON string holding the text.
pub open spec fn quoted(s: Seq<char>) -> Seq<char> {
    "\""@ + escaped(s) + "\""@
}

/// The parts separated by commas.
pub open spec fn joined(parts: Seq<Seq<char>>) -> Seq<char>
    decreases parts.len(),
{
    if parts.len() == 0 {
        Seq::empty()
    } else if parts.len() == 1 {
        parts[0]
    } else {
        joined(parts.drop_last()) + ","@ + parts.last()
    }
}

/// A JSON array of the parts.
pub open spec fn array(parts: Seq<Seq<char>>) -> Seq<char> {
    "["@ + joined(parts) + "]"@
}

/// The display text of a redemption identifier.
pub open spec fn redemption_text(id: RedemptionId) -> Seq<char> {
    "rdm-"@ + decimal(id@ as nat)
}

/// Escapes the text for a JSON string.
pub fn json_escape(value: &str) -> (r: String)
    ensures
        r@ == escaped(value@),
{
    let n = value.unicode_len();
    let mut out = String::new();
    let mut i: usize = 0;
    while i < n
        invariant
            n == value@.len(),
            i <= n,
            out@ == escaped(value@.take(i as int)),
        decreases n - i,
    {
        let c = value.get_char(i);
        proof {
            assert(value@.take(i as int + 1).drop_last() =~= value@.take(i as int));
        }
        if c == '"' {
            out.append("\\\"");
        } else if c == '\\' {
            out.append("\\\\");
        } else if c == '\n' {
            out.append("\\n");
        } else if c == '\r' {
            out.append("\\r");
        } else if c == '\t' {
            out.append("\\t");
        } else {
            push_char(&mut out, c);
            proof {
                assert(escape_char(c) == seq![c]);
            }
        }
        i = i + 1;
    }
    proof {
        assert(value@.take(n as int) =~= value@);
    }
    out
}

/// The text as a JSON string.
fn quote(value: &str) -> (r: String)
    ensures
        r@ == quoted(value@),
{
    let mut out = String::from_str("\"");
    out.append(json_escape(value).as_str());
    out.append("\"");
    out
}

/// The texts as a JSON array of their contents.
fn json_array(parts: &Vec<String>) -> (r: String)
    ensures
        r@ == array(parts@.map_values(|p: String| p@)),
{
    let ghost ps = parts@.map_values(|p: String| p@);
    let mut out = String::from_str("[");
    let mut i: usize = 0;
    while i < parts.len()
        invariant
            ps == parts@.map_values(|p: String| p@),
            i <= parts.len(),
            out@ == "["@ + joined(ps.take(i as int)),
        decreases parts.len() - i,
    {
        proof {
            assert(ps.take(i as int + 1).drop_last() =~= ps.take(i as int));
            assert(ps.take(i as int + 1).last() == parts@[i as int]@);
        }
        if i > 0 {
            out.append(",");
        } else {
            proof {
                assert(ps.take(0) =~= Seq::<Seq<char>>::empty());
            }
        }
        out.append(parts[i].as_str());
        i = i + 1;
    }
    proof {
        assert(ps.take(parts@.len() as int) =~= ps);
    }
    out.append("]");
    out
}

/// The redemption identifiers as a JSON array of strings.
pub fn id_array_json(ids: &[RedemptionId]) -> (r: String)
    ensures
        r@ == array(ids@.map_values(|id: RedemptionId| quoted(redemption_text(id)))),
{
    let mut parts: Vec<String> = Vec::new();
    let mut i: usize = 0;
    while i < ids.len()
        invariant
            i <= ids@.len(),
            parts@.len() == i,
            forall|j: int| 0 <= j < i ==> (#[trigger] parts@[j])@ == quoted(redemption_text(ids@[j])),
        decreases ids@.len() - i,
    {
        let text = ids[i].label();
        parts.push(quote(text.as_str()));
        i = i + 1;
    }
    proof {
        assert(parts@.map_values(|p: String| p@) =~= ids@.map_values(|id: RedemptionId| quoted(redemption_text(id))));
    }
    json_array(&parts)
}

/// The texts as a JSON array of strings.
pub fn string_array_json(values: &[String]) -> (r: String)
    ensures
        r@ == array(values@.map_values(|v: String| quoted(v@))),
{
    let mut parts: Vec<String> = Vec::new();
    let mut i: usize = 0;
    while i < values.len()
        invariant
            i <= values@.len(),
            parts@.len() == i,
            forall|j: int| 0 <= j < i ==> (#[trigger] parts@[j])@ == quoted(values@[j]@),
        decreases values@.len() - i,
    {
        parts.push(quote(values[i].as_str()));
        i = i + 1;
    }
    proof {
        assert(parts@.map_values(|p: String| p@) =~= values@.map_values(|v: String| quoted(v@)));
    }
    json_array(&parts)
}

/// The display text of an account identifier.
pub open spec fn account_text(id: AccountId) -> Seq<char> {
    "acct-"@ + decimal(id@ as nat)
}

/// The display text of a vault identifier.
pub open spec fn vault_text(id: VaultId) -> Seq<char> {
    "vault-"@ + decimal(id@ as nat)
}

/// The display text of an asset identifier.
pub open spec fn asset_text(id: AssetId) -> Seq<char> {
    "asset-"@ + decimal(id@ as nat)
}

/// A share position as a JSON object.
pub open spec fn share_json(e: (VaultId, Amount)) -> Seq<char> {
    "{\"vault\":"@ + quoted(vault_text(e.0)) + ",\"amount\":"@ + decimal(e.1@) + "}"@
}

/// An asset position as a JSON object.
pub open spec fn holding_json(e: (AssetId, Amount)) -> Seq<char> {
    "{\"asset\":"@ + quoted(asset_text(e.0)) + ",\"amount\":"@ + decimal(e.1@) + "}"@
}

/// What an account holds.
#[derive(Debug, Clone, PartialEq, Eq)]
pub struct AccountReport {
    pub id: AccountId,
    pub label: String,
    pub tier: AccountTier,
    pub shares: Vec<(VaultId, Amount)>,
    pub assets: Vec<(AssetId, Amount)>,
}

/// The balances, queue and tickets of a vault.
#[derive(Debug, Clone, PartialEq, Eq)]
pub struct VaultReport {
    pub id: VaultId,
    pub name: String,
    pub asset: AssetId,
    pub reserve_assets: Amount,
    pub total_shares: Amount,
    pub pending_assets: Amount,
    pub queue_depth: usize,
    pub open_claims: Amount,
    pub queued: usize,
    pub pending_unlock: usize,
    pub cancelled: usize,
    pub withdrawn: usize,
}

/// The state of the protocol on one day.
#[derive(Debug, Clone, PartialEq, Eq)]
pub struct ProtocolReport {
    pub day: u64,
    pub accounts: Vec<AccountReport>,
    pub vaults: Vec<VaultReport>,
    pub event_count: usize,
}

/// What the open claims of `s` owe to the vault.
pub open spec fn vault_claims(s: Seq<PriorityClaim>, vault: VaultId) -> nat
    decreases s.len(),
{
    if s.len() == 0 {
        0
    } else {
        vault_claims(s.drop_last(), vault) + if s.last().spec_vault() == vault { s.last().spec_amount()@ } else { 0 }
    }
}

impl AccountReport {
    /// The report as a JSON object.
    pub open spec fn json(self) -> Seq<char> {
        "{\"id\":"@ + quoted(account_text(self.id)) + ",\"label\":"@ + quoted(self.label@) + ",\"tier\":\""@
            + self.tier.spec_label() + "\",\"shares\":"@ + array(self.shares@.map_values(|e: (VaultId, Amount)| share_json(e)))
            + ",\"assets\":"@ + array(self.assets@.map_values(|e: (AssetId, Amount)| holding_json(e))) + "}"@
    }

    /// The report describes the account: its identifier, label and tier,
    /// and its share and asset positions in identifier order.
    pub open spec fn describes(self, a: Account) -> bool {
        let p = a.spec_portfolio();
        &&& self.id == a.spec_id()
        &&& self.label@ == a.spec_label()
        &&& self.tier == a.spec_tier()
        &&& self.shares@.len() == p.share_entries().len()
        &&& forall|i: int| 0 <= i < self.shares@.len() ==> (#[trigger] self.shares@[i]).0@ == p.share_entries()[i].0
            && self.shares@[i].1 == p.share_entries()[i].1
        &&& self.assets@.len() == p.asset_entries().len()
        &&& forall|i: int| 0 <= i < self.assets@.len() ==> (#[trigger] self.assets@[i]).0@ == p.asset_entries()[i].0
            && self.assets@[i].1 == p.asset_entries()[i].1
    }

    pub fn to_json(&self) -> (r: String)
        ensures
            r@ == self.json(),
    {
        let mut shares: Vec<String> = Vec::new();
        let mut i: usize = 0;
        while i < self.shares.len()
            invariant
                i <= self.shares@.len(),
                shares@.len() == i,
                forall|j: int| 0 <= j < i ==> (#[trigger] shares@[j])@ == share_json(self.shares@[j]),
            decreases self.shares@.len() - i,
        {
            let (vault, amount) = self.shares[i];
            let mut part = String::from_str("{\"vault\":");
            part.append(quote(vault.label().as_str()).as_str());
            part.append(",\"amount\":");
            part.append(decimal_string(amount.raw()).as_str());
            part.append("}");
            shares.push(part);
            i = i + 1;
        }
        let mut assets: Vec<String> = Vec::new();
        let mut i: usize = 0;
        while i < self.assets.len()
            invariant
                i <= self.assets@.len(),
                assets@.len() == i,
                forall|j: int| 0 <= j < i ==> (#[trigger] assets@[j])@ == holding_json(self.assets@[j]),
            decreases self.assets@.len() - i,
        {
            let (asset, amount) = self.assets[i];
            let mut part = String::from_str("{\"asset\":");
            part.append(quote(asset.label().as_str()).as_str());
            part.append(",\"amount\":");
            part.append(decimal_string(amount.raw()).as_str());
            part.append("}");
            assets.push(part);
            i = i + 1;
        }
        proof {
            assert(shares@.map_values(|p: String| p@) =~= self.shares@.map_values(|e: (VaultId, Amount)| share_json(e)));
            assert(assets@.map_values(|p: String| p@) =~= self.assets@.map_values(|e: (AssetId, Amount)| holding_json(e)));
        }
        let mut out = String::from_str("{\"id\":");
        out.append(quote(self.id.label().as_str()).as_str());
        out.append(",\"label\":");
        out.append(quote(self.label.as_str()).as_str());
        out.append(",\"tier\":\"");
        out.append(self.tier.label());
        out.append("\",\"shares\":");
        out.append(json_array(&shares).as_str());
        out.append(",\"assets\":");
        out.append(json_array(&assets).as_str());
        out.append("}");
        out
    }
}

/// Open claims owed by a prefix of `s` are at most those owed by all of it.
proof fn lemma_vault_claims_prefix(s: Seq<PriorityClaim>, vault: VaultId, k: int)
    requires
        0 <= k <= s.len(),
    ensures
        vault_claims(s.take(k), vault) <= vault_claims(s, vault),
    decreases s.len(),
{
    if k < s.len() {
        assert(s.drop_last().take(k) =~= s.take(k));
        lemma_vault_claims_prefix(s.drop_last(), vault, k);
    } else {
        assert(s.take(k) =~= s);
    }
}

impl VaultReport {
    /// The report as a JSON object.
    pub open spec fn json(self) -> Seq<char> {
        "{\"id\":"@ + quoted(vault_text(self.id)) + ",\"name\":"@ + quoted(self.name@) + ",\"asset\":"@
            + quoted(asset_text(self.asset)) + ",\"reserveAssets\":"@ + decimal(self.reserve_assets@)
            + ",\"totalShares\":"@ + decimal(self.total_shares@) + ",\"pendingAssets\":"@ + decimal(
            self.pending_assets@,
        ) + ",\"queueDepth\":"@ + decimal(self.queue_depth as nat) + ",\"openClaims\":"@ + decimal(self.open_claims@)
            + ",\"tickets\":{\"queued\":"@ + decimal(self.queued as nat) + ",\"pendingUnlock\":"@ + decimal(
            self.pending_unlock as nat,
        ) + ",\"cancelled\":"@ + decimal(self.cancelled as nat) + ",\"withdrawn\":"@ + decimal(self.withdrawn as nat)
            + "}}"@
    }

    /// The report describes the vault of the engine: its identity and
    /// balances, the length of its queue, what the open claims on it owe,
    /// and how many of its tickets are in each status.
    pub open spec fn describes(self, v: VaultState, engine: CrownEngine) -> bool {
        let e = v.ticket_entries();
        &&& self.id == v.spec_id()
        &&& self.name@ == v.spec_config().spec_name()
        &&& self.asset == v.spec_asset()
        &&& self.reserve_assets@ == v.spec_reserve()
        &&& self.total_shares@ == v.spec_total_shares()
        &&& self.pending_assets@ == v.spec_pending()
        &&& self.queue_depth == engine.spec_queue().spec_items(v.spec_id()).len()
        &&& self.open_claims@ == vault_claims(open_claim_seq(engine.spec_claims().claim_entries()), v.spec_id())
        &&& self.queued == status_count(e, RedemptionStatus::Queued)
        &&& self.pending_unlock == status_count(e, RedemptionStatus::PendingUnlock)
        &&& self.cancelled == status_count(e, RedemptionStatus::Cancelled)
        &&& self.withdrawn == status_count(e, RedemptionStatus::Withdrawn)
    }

    pub fn to_json(&self) -> (r: String)
        ensures
            r@ == self.json(),
    {
        let mut out = String::from_str("{\"id\":");
        out.append(quote(self.id.label().as_str()).as_str());
        out.append(",\"name\":");
        out.append(quote(self.name.as_str()).as_str());
        out.append(",\"asset\":");
        out.append(quote(self.asset.label().as_str()).as_str());
        out.append(",\"reserveAssets\":");
        out.append(decimal_string(self.reserve_assets.raw()).as_str());
        out.append(",\"totalShares\":");
        out.append(decimal_string(self.total_shares.raw()).as_str());
        out.append(",\"pendingAssets\":");
        out.append(decimal_string(self.pending_assets.raw()).as_str());
        out.append(",\"queueDepth\":");
        out.append(decimal_string(self.queue_depth as u128).as_str());
        out.append(",\"openClaims\":");
        out.append(decimal_string(self.open_claims.raw()).as_str());
        out.append(",\"tickets\":{\"queued\":");
        out.append(decimal_string(self.queued as u128).as_str());
        out.append(",\"pendingUnlock\":");
        out.append(decimal_string(self.pending_unlock as u128).as_str());
        out.append(",\"cancelled\":");
        out.append(decimal_string(self.cancelled as u128).as_str());
        out.append(",\"withdrawn\":");
        out.append(decimal_string(self.withdrawn as u128).as_str());
        out.append("}}");
        out
    }
}

/// Every vault of the engine has a queue and open claims whose totals fit
/// an amount, so that a report can be taken.
pub open spec fn reportable(engine: CrownEngine) -> bool {
    forall|i: int| 0 <= i < engine.vault_entries().len() ==> {
        let id = (#[trigger] engine.vault_entries()[i]).1.spec_id();
        &&& queued_amount(engine.spec_queue().spec_items(id)) <= amount_max()
        &&& vault_claims(open_claim_seq(engine.spec_claims().claim_entries()), id) <= amount_max()
    }
}

impl ProtocolReport {
    /// The report as a JSON object.
    pub open spec fn json(self) -> Seq<char> {
        "{\"day\":"@ + decimal(self.day as nat) + ",\"eventCount\":"@ + decimal(self.event_count as nat)
            + ",\"accounts\":"@ + array(self.accounts@.map_values(|a: AccountReport| a.json())) + ",\"vaults\":"@
            + array(self.vaults@.map_values(|v: VaultReport| v.json())) + "}"@
    }

    /// The report describes the engine: its day and number of journal
    /// entries, and each account and vault in identifier order.
    pub open spec fn describes(self, engine: CrownEngine) -> bool {
        let accts = engine.spec_accounts().spec_entries();
        let vs = engine.vault_entries();
        &&& self.day == engine.spec_day()@
        &&& self.event_count == engine.spec_events().len()
        &&& self.accounts@.len() == accts.len()
        &&& forall|i: int| 0 <= i < accts.len() ==> (#[trigger] self.accounts@[i]).describes(accts[i].1)
        &&& self.vaults@.len() == vs.len()
        &&& forall|i: int| 0 <= i < vs.len() ==> (#[trigger] self.vaults@[i]).describes(vs[i].1, engine)
    }

    /// Fails with `Arithmetic` when the queued amount or the open claims of
    /// some vault exceed an amount.
    pub fn capture(engine: &CrownEngine) -> (r: CrownResult<ProtocolReport>)
        requires
            engine.wf(),
        ensures
            !reportable(*engine) ==> (r matches Err(e) && e is Arithmetic && e.spec_detail()
                == "amount addition overflow"@),
            reportable(*engine) ==> (r matches Ok(rep) && rep.describes(*engine)),
    {
        proof {
            engine.lemma_wf_parts();
            engine.spec_accounts().lemma_wf();
        }
        let accts = engine.accounts().all();
        let ghost es = engine.spec_accounts().spec_entries();
        let mut accounts: Vec<AccountReport> = Vec::new();
        let mut i: usize = 0;
        while i < accts.len()
            invariant
                engine.spec_accounts().wf(),
                es == engine.spec_accounts().spec_entries(),
                accts@.len() == es.len(),
                forall|j: int| 0 <= j < accts@.len() ==> *(#[trigger] accts@[j]) == es[j].1,
                forall|k: u64| #[trigger] engine.spec_accounts().spec_accounts().contains_key(k)
                    ==> engine.spec_accounts().spec_accounts()[k].wf(),
                forall|j: int| 0 <= j < es.len() ==> engine.spec_accounts().spec_accounts().contains_key(
                    (#[trigger] es[j]).0) && engine.spec_accounts().spec_accounts()[es[j].0] == es[j].1,
                i <= accts@.len(),
                accounts@.len() == i,
                forall|j: int| 0 <= j < i ==> (#[trigger] accounts@[j]).describes(es[j].1),
            decreases accts@.len() - i,
        {
            let account = accts[i];
            proof {
                assert(engine.spec_accounts().spec_accounts().contains_key(es[i as int].0));
            }
            let p = account.portfolio();
            accounts.push(AccountReport {
                id: account.id(),
                label: String::from_str(account.label()),
                tier: account.tier(),
                shares: p.share_positions(),
                assets: p.asset_positions(),
            });
            i = i + 1;
        }
        let vaults_in = engine.vaults();
        let ghost vs = engine.vault_entries();
        let open = engine.claims().open_claims();
        let ghost os = open_claim_seq(engine.spec_claims().claim_entries());
        let mut vaults: Vec<VaultReport> = Vec::new();
        let mut i: usize = 0;
        while i < vaults_in.len()
            invariant
                vs == engine.vault_entries(),
                vaults_in@.len() == vs.len(),
                forall|j: int| 0 <= j < vaults_in@.len() ==> *(#[trigger] vaults_in@[j]) == vs[j].1,
                os == open_claim_seq(engine.spec_claims().claim_entries()),
                open@.map_values(|c: &PriorityClaim| *c) == os,
                engine.wf(),
                i <= vaults_in@.len(),
                vaults@.len() == i,
                forall|j: int| 0 <= j < i ==> (#[trigger] vaults@[j]).describes(vs[j].1, *engine),
                forall|j: int| 0 <= j < i ==> {
                    let id = (#[trigger] vs[j]).1.spec_id();
                    &&& queued_amount(engine.spec_queue().spec_items(id)) <= amount_max()
                    &&& vault_claims(os, id) <= amount_max()
                },
            decreases vaults_in@.len() - i,
        {
            let vault = vaults_in[i];
            let id = vault.id();
            proof {
                assert(*vault == vs[i as int].1);
            }
            let snapshot = match engine.queue_snapshot(id) {
                Ok(s) => s,
                Err(e) => {
                    proof {
                        assert(!reportable(*engine)) by {
                            assert(vs[i as int].1.spec_id() == id);
                        }
                    }
                    return Err(e);
                },
            };
            let tickets = vault.tickets();
            let ghost te = vault.ticket_entries();
            let mut queued: usize = 0;
            let mut pending_unlock: usize = 0;
            let mut cancelled: usize = 0;
            let mut withdrawn: usize = 0;
            let mut t: usize = 0;
            while t < tickets.len()
                invariant
                    te == vault.ticket_entries(),
                    tickets@.len() == te.len(),
                    forall|j: int| 0 <= j < tickets@.len() ==> *(#[trigger] tickets@[j]) == te[j].1,
                    t <= te.len(),
                    queued == status_count(te.take(t as int), RedemptionStatus::Queued),
                    pending_unlock == status_count(te.take(t as int), RedemptionStatus::PendingUnlock),
                    cancelled == status_count(te.take(t as int), RedemptionStatus::Cancelled),
                    withdrawn == status_count(te.take(t as int), RedemptionStatus::Withdrawn),
                    queued + pending_unlock + cancelled + withdrawn == t,
                decreases te.len() - t,
            {
                proof {
                    assert(te.take(t as int + 1).drop_last() =~= te.take(t as int));
                }
                match tickets[t].status() {
                    RedemptionStatus::Queued => { queued = queued + 1; },
                    RedemptionStatus::PendingUnlock => { pending_unlock = pending_unlock + 1; },
                    RedemptionStatus::Cancelled => { cancelled = cancelled + 1; },
                    RedemptionStatus::Withdrawn => { withdrawn = withdrawn + 1; },
                }
                t = t + 1;
            }
            proof {
                assert(te.take(te.len() as int) =~= te);
            }
            let mut owed = Amount::new(0);
            let mut c: usize = 0;
            while c < open.len()
                invariant
                    open@.map_values(|x: &PriorityClaim| *x) == os,
                    vs == engine.vault_entries(),
                    os == open_claim_seq(engine.spec_claims().claim_entries()),
                    i < vs.len(),
                    id == vs[i as int].1.spec_id(),
                    c <= os.len(),
                    owed@ == vault_claims(os.take(c as int), id),
                decreases os.len() - c,
            {
                let claim = open[c];
                proof {
                    assert(os.take(c as int + 1).drop_last() =~= os.take(c as int));
                    assert(*claim == os[c as int]);
                }
                if claim.vault() == id {
                    match owed.checked_add(claim.amount()) {
                        Ok(total) => { owed = total; },
                        Err(e) => {
                            proof {
                                let pre = os.take(c as int + 1);
                                assert(pre.drop_last() =~= os.take(c as int));
                                assert(pre.last() == os[c as int]);
                                assert(vault_claims(pre, id) == owed@ + claim.spec_amount()@);
                                lemma_vault_claims_prefix(os, id, c as int + 1);
                                assert(!reportable(*engine)) by {
                                    assert(vs[i as int].1.spec_id() == id);
                                }
                            }
                            return Err(e);
                        },
                    }
                }
                c = c + 1;
            }
            proof {
                assert(os.take(os.len() as int) =~= os);
            }
            vaults.push(VaultReport {
                id,
                name: String::from_str(vault.name()),
                asset: vault.asset(),
                reserve_assets: vault.reserve_assets(),
                total_shares: vault.total_shares(),
                pending_assets: vault.pending_assets(),
                queue_depth: snapshot.priority_depth() + snapshot.standard_depth(),
                open_claims: owed,
                queued,
                pending_unlock,
                cancelled,
                withdrawn,
            });
            i = i + 1;
        }
        Ok(ProtocolReport {
            day: engine.day().raw(),
            accounts,
            vaults,
            event_count: engine.ledger().journal().len(),
        })
    }

    pub fn to_json(&self) -> (r: String)
        ensures
            r@ == self.json(),
    {
        let mut accounts: Vec<String> = Vec::new();
        let mut i: usize = 0;
        while i < self.accounts.len()
            invariant
                i <= self.accounts@.len(),
                accounts@.len() == i,
                forall|j: int| 0 <= j < i ==> (#[trigger] accounts@[j])@ == self.accounts@[j].json(),
            decreases self.accounts@.len() - i,
        {
            accounts.push(self.accounts[i].to_json());
            i = i + 1;
        }
        let mut vaults: Vec<String> = Vec::new();
        let mut i: usize = 0;
        while i < self.vaults.len()
            invariant
                i <= self.vaults@.len(),
                vaults@.len() == i,
                forall|j: int| 0 <= j < i ==> (#[trigger] vaults@[j])@ == self.vaults@[j].json(),
            decreases self.vaults@.len() - i,
        {
            vaults.push(self.vaults[i].to_json());
            i = i + 1;
        }
        proof {
            assert(accounts@.map_values(|p: String| p@) =~= self.accounts@.map_values(|a: AccountReport| a.json()));
            assert(vaults@.map_values(|p: String| p@) =~= self.vaults@.map_values(|v: VaultReport| v.json()));
        }
        let mut out = String::from_str("{\"day\":");
        out.append(decimal_string(self.day as u128).as_str());
        out.append(",\"eventCount\":");
        out.append(decimal_string(self.event_count as u128).as_str());
        out.append(",\"accounts\":");
        out.append(json_array(&accounts).as_str());
        out.append(",\"vaults\":");
        out.append(json_array(&vaults).as_str());
        out.append("}");
        out
    }
}

} // verus!
