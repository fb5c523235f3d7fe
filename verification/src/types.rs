use vstd::prelude::*;

verus! {

/// A ledger this bridge can observe or submit to.
#[derive(Debug, Clone, Copy, PartialEq, Eq, Structural)]
pub enum Chain {
    Solana,
    Ethereum,
    Sui,
}

impl Chain {
    /// The chain's display name.
    pub fn name(&self) -> (r: String)
        ensures
            self is Solana ==> r@ == "Solana"@,
            self is Ethereum ==> r@ == "Ethereum"@,
            self is Sui ==> r@ == "Sui"@,
    {
        match self {
            Chain::Solana => String::from_str("Solana"),
            Chain::Ethereum => String::from_str("Ethereum"),
            Chain::Sui => String::from_str("Sui"),
        }
    }
}

/// A cross-chain transfer observed on a source chain, in canonical form.
#[derive(Debug)]
pub enum BridgeEvent {
    /// Tokens locked on the source chain, to be minted on the destination.
    TokensLocked {
        from_chain: Chain,
        to_chain: Chain,
        sender: String,
        recipient: String,
        amount: u64,
        nonce: u64,
        tx_hash: String,
    },
    /// Tokens burned on the destination chain, to be unlocked on the source.
    TokensBurned {
        from_chain: Chain,
        to_chain: Chain,
        sender: String,
        recipient: String,
        amount: u64,
        nonce: u64,
        tx_hash: String,
    },
}

/// The event's replay-protection nonce.
pub open spec fn spec_event_nonce(e: BridgeEvent) -> u64 {
    match e {
        BridgeEvent::TokensLocked { nonce, .. } => nonce,
        BridgeEvent::TokensBurned { nonce, .. } => nonce,
    }
}

/// The chain the event was observed on.
pub open spec fn spec_event_from_chain(e: BridgeEvent) -> Chain {
    match e {
        BridgeEvent::TokensLocked { from_chain, .. } => from_chain,
        BridgeEvent::TokensBurned { from_chain, .. } => from_chain,
    }
}

/// The chain the transfer is headed to.
pub open spec fn spec_event_to_chain(e: BridgeEvent) -> Chain {
    match e {
        BridgeEvent::TokensLocked { to_chain, .. } => to_chain,
        BridgeEvent::TokensBurned { to_chain, .. } => to_chain,
    }
}

/// The source-chain transaction hash the event came from.
pub open spec fn spec_event_tx_hash(e: BridgeEvent) -> Seq<char> {
    match e {
        BridgeEvent::TokensLocked { tx_hash, .. } => tx_hash@,
        BridgeEvent::TokensBurned { tx_hash, .. } => tx_hash@,
    }
}

/// The event's sender identity on the source chain.
pub open spec fn spec_event_sender(e: BridgeEvent) -> Seq<char> {
    match e {
        BridgeEvent::TokensLocked { sender, .. } => sender@,
        BridgeEvent::TokensBurned { sender, .. } => sender@,
    }
}

/// The event's recipient identity on the destination chain.
pub open spec fn spec_event_recipient(e: BridgeEvent) -> Seq<char> {
    match e {
        BridgeEvent::TokensLocked { recipient, .. } => recipient@,
        BridgeEvent::TokensBurned { recipient, .. } => recipient@,
    }
}

/// The event's transferred amount.
pub open spec fn spec_event_amount(e: BridgeEvent) -> u64 {
    match e {
        BridgeEvent::TokensLocked { amount, .. } => amount,
        BridgeEvent::TokensBurned { amount, .. } => amount,
    }
}

impl BridgeEvent {
    pub fn nonce(&self) -> (r: u64)
        ensures
            r == spec_event_nonce(*self),
    {
        match self {
            BridgeEvent::TokensLocked { nonce, .. } => *nonce,
            BridgeEvent::TokensBurned { nonce, .. } => *nonce,
        }
    }

    pub fn from_chain(&self) -> (r: Chain)
        ensures
            r == spec_event_from_chain(*self),
    {
        match self {
            BridgeEvent::TokensLocked { from_chain, .. } => *from_chain,
            BridgeEvent::TokensBurned { from_chain, .. } => *from_chain,
        }
    }

    pub fn to_chain(&self) -> (r: Chain)
        ensures
            r == spec_event_to_chain(*self),
    {
        match self {
            BridgeEvent::TokensLocked { to_chain, .. } => *to_chain,
            BridgeEvent::TokensBurned { to_chain, .. } => *to_chain,
        }
    }

    pub fn amount(&self) -> (r: u64)
        ensures
            r == spec_event_amount(*self),
    {
        match self {
            BridgeEvent::TokensLocked { amount, .. } => *amount,
            BridgeEvent::TokensBurned { amount, .. } => *amount,
        }
    }

    pub fn tx_hash(&self) -> (r: &str)
        ensures
            r@ == spec_event_tx_hash(*self),
    {
        match self {
            BridgeEvent::TokensLocked { tx_hash, .. } => tx_hash.as_str(),
            BridgeEvent::TokensBurned { tx_hash, .. } => tx_hash.as_str(),
        }
    }
}

/// Lifecycle stage of one ledger row.
#[derive(Debug, Clone, Copy, PartialEq, Eq, Structural)]
pub enum TransactionStatus {
    Pending,
    SignaturesCollected,
    Submitted,
    Confirmed,
    Failed,
}

/// Position of a status along the forward lifecycle.
pub open spec fn status_rank(s: TransactionStatus) -> int {
    match s {
        TransactionStatus::Pending => 0,
        TransactionStatus::SignaturesCollected => 1,
        TransactionStatus::Submitted => 2,
        TransactionStatus::Confirmed => 3,
        TransactionStatus::Failed => 3,
    }
}

/// A row in a terminal status never changes again.
pub open spec fn status_is_terminal(s: TransactionStatus) -> bool {
    s is Confirmed || s is Failed
}

/// The status moves the row may make: one step forward along
/// Pending, SignaturesCollected, Submitted, Confirmed, or to Failed from any
/// non-terminal status.
pub open spec fn transition_allowed(from: TransactionStatus, to: TransactionStatus) -> bool {
    ||| (from is Pending && to is SignaturesCollected)
    ||| (from is SignaturesCollected && to is Submitted)
    ||| (from is Submitted && to is Confirmed)
    ||| (!status_is_terminal(from) && to is Failed)
}

/// Every allowed move goes strictly forward and leaves a terminal status
/// nowhere to go: the lifecycle order can never reverse.
pub proof fn lemma_status_forward(from: TransactionStatus, to: TransactionStatus)
    ensures
        transition_allowed(from, to) ==> status_rank(from) < status_rank(to),
        status_is_terminal(from) ==> !transition_allowed(from, to),
{
}

impl TransactionStatus {
    /// The status's display name.
    pub fn name(&self) -> (r: String)
        ensures
            self is Pending ==> r@ == "Pending"@,
            self is SignaturesCollected ==> r@ == "SignaturesCollected"@,
            self is Submitted ==> r@ == "Submitted"@,
            self is Confirmed ==> r@ == "Confirmed"@,
            self is Failed ==> r@ == "Failed"@,
    {
        match self {
            TransactionStatus::Pending => String::from_str("Pending"),
            TransactionStatus::SignaturesCollected => String::from_str("SignaturesCollected"),
            TransactionStatus::Submitted => String::from_str("Submitted"),
            TransactionStatus::Confirmed => String::from_str("Confirmed"),
            TransactionStatus::Failed => String::from_str("Failed"),
        }
    }
}

/// One validator's endorsement of a release message.
#[derive(Debug)]
pub struct ValidatorSignature {
    pub validator_address: String,
    pub signature: String,
    pub signed_at: i64,
}

impl Clone for ValidatorSignature {
    fn clone(&self) -> (res: Self)
        ensures
            res == *self,
    {
        ValidatorSignature {
            validator_address: self.validator_address.clone(),
            signature: self.signature.clone(),
            signed_at: self.signed_at,
        }
    }
}

/// Duplicate a signature list, value for value.
pub fn clone_signatures(sigs: &Vec<ValidatorSignature>) -> (res: Vec<ValidatorSignature>)
    ensures
        res@ == sigs@,
{
    let mut out: Vec<ValidatorSignature> = Vec::new();
    let mut i: usize = 0;
    while i < sigs.len()
        invariant
            i <= sigs@.len(),
            out@ =~= sigs@.subrange(0, i as int),
        decreases sigs@.len() - i,
    {
        out.push(sigs[i].clone());
        i += 1;
    }
    assert(out@ =~= sigs@);
    out
}

/// One tracked cross-chain transfer in the relay ledger.
#[derive(Debug)]
pub struct RelayerTransaction {
    pub id: i64,
    pub nonce: i64,
    pub from_chain: Chain,
    pub to_chain: Chain,
    pub from_tx_hash: String,
    pub to_tx_hash: Option<String>,
    pub sender: String,
    pub recipient: String,
    pub amount: i64,
    pub status: TransactionStatus,
    pub signatures: Option<Vec<ValidatorSignature>>,
    pub error_message: Option<String>,
    pub created_at: i64,
    pub updated_at: i64,
}

/// Duplicate an optional string, value for value.
fn clone_opt_string(s: &Option<String>) -> (res: Option<String>)
    ensures
        res == *s,
{
    match s {
        Some(v) => Some(v.clone()),
        None => None,
    }
}

/// Two optional signature lists that hold the same signatures in the same
/// order.
pub open spec fn same_signatures(
    a: Option<Vec<ValidatorSignature>>,
    b: Option<Vec<ValidatorSignature>>,
) -> bool {
    match (a, b) {
        (Some(x), Some(y)) => x@ == y@,
        (None, None) => true,
        _ => false,
    }
}

/// Two rows that agree field for field; signature lists are compared by their
/// contents.
pub open spec fn tx_equiv(a: RelayerTransaction, b: RelayerTransaction) -> bool {
    &&& a.id == b.id
    &&& a.nonce == b.nonce
    &&& a.from_chain == b.from_chain
    &&& a.to_chain == b.to_chain
    &&& a.from_tx_hash == b.from_tx_hash
    &&& a.to_tx_hash == b.to_tx_hash
    &&& a.sender == b.sender
    &&& a.recipient == b.recipient
    &&& a.amount == b.amount
    &&& a.status == b.status
    &&& same_signatures(a.signatures, b.signatures)
    &&& a.error_message == b.error_message
    &&& a.created_at == b.created_at
    &&& a.updated_at == b.updated_at
}

impl Clone for RelayerTransaction {
    fn clone(&self) -> (res: Self)
        ensures
            tx_equiv(res, *self),
    {
        RelayerTransaction {
            id: self.id,
            nonce: self.nonce,
            from_chain: self.from_chain,
            to_chain: self.to_chain,
            from_tx_hash: self.from_tx_hash.clone(),
            to_tx_hash: clone_opt_string(&self.to_tx_hash),
            sender: self.sender.clone(),
            recipient: self.recipient.clone(),
            amount: self.amount,
            status: self.status,
            signatures: match &self.signatures {
                Some(sigs) => Some(clone_signatures(sigs)),
                None => None,
            },
            error_message: clone_opt_string(&self.error_message),
            created_at: self.created_at,
            updated_at: self.updated_at,
        }
    }
}

} // verus!
