use vstd::prelude::*;

verus! {

/// A secp256k1 key pair, as the bytes of its two keys.
pub struct KeyPair {
    pub public_key: Vec<u8>,
    pub private_key: Vec<u8>,
}

/// An invoice signature: the recovery id and the compact signature bytes.
pub struct SignedInvoice {
    pub recovery_id: i32,
    pub signature: Vec<u8>,
}

/// A pair of strings handed to Ruby (a transaction and its context).
pub struct Pair {
    pub first: String,
    pub second: String,
}

/// A pair of strings as the funds recovery kit gives it.
pub struct StringTuple {
    pub first: String,
    pub second: String,
}

/// The signed transactions that the funds recovery kit gives back.
pub struct RecoveryKitResponse {
    pub commitment_tx: String,
    pub sweep_tx: String,
    pub htlc_inbound_tx: Vec<StringTuple>,
    pub htlc_outbound_tx: Vec<StringTuple>,
    pub counterparty_sweep_tx: String,
    pub counterparty_htlc_inbound_tx: Vec<String>,
    pub counterparty_htlc_outbound_tx: Vec<String>,
}

/// The signed transactions as the bindings hand them to Ruby.
pub struct FundsRecoveryResponse {
    pub commitment_tx: String,
    pub sweep_tx: String,
    pub htlc_inbound_tx: Vec<Pair>,
    pub htlc_outbound_tx: Vec<Pair>,
    pub counterparty_sweep_tx: String,
    pub counterparty_htlc_inbound_tx: Vec<String>,
    pub counterparty_htlc_outbound_tx: Vec<String>,
}

/// Whether a list of pairs holds, in order, the strings of a list of tuples.
pub open spec fn pairs_match(pairs: Seq<Pair>, tuples: Seq<StringTuple>) -> bool {
    &&& pairs.len() == tuples.len()
    &&& forall|i: int|
        0 <= i < pairs.len() ==> {
            &&& (#[trigger] pairs[i]).first@ == tuples[i].first@
            &&& pairs[i].second@ == tuples[i].second@
        }
}

/// Whether two lists of pairs hold the same strings, in order.
pub open spec fn same_pairs(a: Seq<Pair>, b: Seq<Pair>) -> bool {
    &&& a.len() == b.len()
    &&& forall|i: int|
        0 <= i < a.len() ==> {
            &&& (#[trigger] a[i]).first@ == b[i].first@
            &&& a[i].second@ == b[i].second@
        }
}

/// Whether two lists of strings hold the same strings, in order.
pub open spec fn same_strings(a: Seq<String>, b: Seq<String>) -> bool {
    &&& a.len() == b.len()
    &&& forall|i: int| 0 <= i < a.len() ==> (#[trigger] a[i])@ == b[i]@
}

impl KeyPair {
    /// The public key bytes.
    pub fn public_key(&self) -> (k: Vec<u8>)
        ensures
            k@ == self.public_key@,
    {
        self.public_key.clone()
    }

    /// The private key bytes.
    pub fn private_key(&self) -> (k: Vec<u8>)
        ensures
            k@ == self.private_key@,
    {
        self.private_key.clone()
    }
}

impl SignedInvoice {
    /// The recovery id of the signature.
    pub fn recovery_id(&self) -> (id: i32)
        ensures
            id == self.recovery_id,
    {
        self.recovery_id
    }

    /// The signature bytes.
    pub fn signature(&self) -> (s: Vec<u8>)
        ensures
            s@ == self.signature@,
    {
        self.signature.clone()
    }
}

impl Pair {
    /// The first string of the pair.
    pub fn first(&self) -> (s: String)
        ensures
            s@ == self.first@,
    {
        self.first.clone()
    }

    /// The second string of the pair.
    pub fn second(&self) -> (s: String)
        ensures
            s@ == self.second@,
    {
        self.second.clone()
    }
}

/// The pair that hands a tuple of the recovery kit to Ruby.
pub fn to_ruby_pair(t: StringTuple) -> (p: Pair)
    ensures
        p.first@ == t.first@,
        p.second@ == t.second@,
{
    Pair { first: t.first, second: t.second }
}

/// Hands each tuple of a list to Ruby as a pair, in order.
fn to_ruby_pairs(tuples: Vec<StringTuple>) -> (pairs: Vec<Pair>)
    ensures
        pairs_match(pairs@, tuples@),
{
    let mut pairs: Vec<Pair> = Vec::new();
    let ghost all = tuples@;
    for t in iter: tuples.into_iter()
        invariant
            iter.seq() == all,
            pairs_match(pairs@, iter.seq().take(iter.index())),
    {
        pairs.push(to_ruby_pair(t));
    }
    assert(all.take(all.len() as int) =~= all);
    pairs
}

/// Copies a list of pairs.
fn clone_pairs(pairs: &Vec<Pair>) -> (copy: Vec<Pair>)
    ensures
        same_pairs(copy@, pairs@),
{
    let mut copy: Vec<Pair> = Vec::new();
    let n = pairs.len();
    let mut i: usize = 0;
    while i < n
        invariant
            n == pairs@.len(),
            i <= n,
            copy@.len() == i,
            same_pairs(copy@, pairs@.take(i as int)),
        decreases n - i,
    {
        let p = Pair { first: pairs[i].first(), second: pairs[i].second() };
        copy.push(p);
        i = i + 1;
    }
    assert(pairs@.take(n as int) =~= pairs@);
    copy
}

/// Copies a list of strings.
fn clone_strings(strings: &Vec<String>) -> (copy: Vec<String>)
    ensures
        same_strings(copy@, strings@),
{
    let mut copy: Vec<String> = Vec::new();
    let n = strings.len();
    let mut i: usize = 0;
    while i < n
        invariant
            n == strings@.len(),
            i <= n,
            copy@.len() == i,
            same_strings(copy@, strings@.take(i as int)),
        decreases n - i,
    {
        copy.push(strings[i].clone());
        i = i + 1;
    }
    assert(strings@.take(n as int) =~= strings@);
    copy
}

impl FundsRecoveryResponse {
    /// Hands the signed transactions of the recovery kit to Ruby: every
    /// string kept as it is, and each tuple turned into a pair, in order.
    pub fn from_kit_response(resp: RecoveryKitResponse) -> (r: FundsRecoveryResponse)
        ensures
            r.commitment_tx@ == resp.commitment_tx@,
            r.sweep_tx@ == resp.sweep_tx@,
            pairs_match(r.htlc_inbound_tx@, resp.htlc_inbound_tx@),
            pairs_match(r.htlc_outbound_tx@, resp.htlc_outbound_tx@),
            r.counterparty_sweep_tx@ == resp.counterparty_sweep_tx@,
            r.counterparty_htlc_inbound_tx@ == resp.counterparty_htlc_inbound_tx@,
            r.counterparty_htlc_outbound_tx@ == resp.counterparty_htlc_outbound_tx@,
    {
        FundsRecoveryResponse {
            commitment_tx: resp.commitment_tx,
            sweep_tx: resp.sweep_tx,
            htlc_inbound_tx: to_ruby_pairs(resp.htlc_inbound_tx),
            htlc_outbound_tx: to_ruby_pairs(resp.htlc_outbound_tx),
            counterparty_sweep_tx: resp.counterparty_sweep_tx,
            counterparty_htlc_inbound_tx: resp.counterparty_htlc_inbound_tx,
            counterparty_htlc_outbound_tx: resp.counterparty_htlc_outbound_tx,
        }
    }

    /// The commitment transaction.
    pub fn commitment_tx(&self) -> (s: String)
        ensures
            s@ == self.commitment_tx@,
    {
        self.commitment_tx.clone()
    }

    /// The sweep transaction.
    pub fn sweep_tx(&self) -> (s: String)
        ensures
            s@ == self.sweep_tx@,
    {
        self.sweep_tx.clone()
    }

    /// The counterparty's sweep transaction.
    pub fn counterparty_sweep_tx(&self) -> (s: String)
        ensures
            s@ == self.counterparty_sweep_tx@,
    {
        self.counterparty_sweep_tx.clone()
    }

    /// The counterparty's inbound HTLC transactions.
    pub fn counterparty_htlc_inbound_tx(&self) -> (v: Vec<String>)
        ensures
            same_strings(v@, self.counterparty_htlc_inbound_tx@),
    {
        clone_strings(&self.counterparty_htlc_inbound_tx)
    }

    /// The counterparty's outbound HTLC transactions.
    pub fn counterparty_htlc_outbound_tx(&self) -> (v: Vec<String>)
        ensures
            same_strings(v@, self.counterparty_htlc_outbound_tx@),
    {
        clone_strings(&self.counterparty_htlc_outbound_tx)
    }

    /// The inbound HTLC transactions, each with its context.
    pub fn htlc_inbound_tx(&self) -> (v: Vec<Pair>)
        ensures
            same_pairs(v@, self.htlc_inbound_tx@),
    {
        clone_pairs(&self.htlc_inbound_tx)
    }

    /// The outbound HTLC transactions, each with its context.
    pub fn htlc_outbound_tx(&self) -> (v: Vec<Pair>)
        ensures
            same_pairs(v@, self.htlc_outbound_tx@),
    {
        clone_pairs(&self.htlc_outbound_tx)
    }
}

} // verus!
