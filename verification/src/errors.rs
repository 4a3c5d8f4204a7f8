use vstd::prelude::*;

verus! {

/// Every way one redemption pipeline run can fail.
///
/// The variants mirror the five pipeline steps plus the two data-shape
/// checks made locally: a transport failure reaching the wallet node, a
/// response whose shape breaks the wallet protocol, an unspent output
/// missing a required field, a total that does not cover the fee, and the
/// three remote stages that can each decline to return their artifact.
#[derive(Clone, Copy, Debug, PartialEq, Eq, Structural)]
pub enum PipelineError {
    /// The HTTP call to the wallet node could not be completed.
    TransportError,
    /// A wallet response lacked the expected `result` shape.
    MalformedResponse,
    /// An unspent output lacked `txid`, `vout` or `amount`, or a field had
    /// the wrong type or an out-of-range value.
    InvalidUtxo,
    /// The summed input value does not exceed the fee.
    InsufficientFunds,
    /// The node returned no raw transaction blob.
    BuildFailed,
    /// The node returned no signed transaction hex.
    SignFailed,
    /// The node returned no transaction id for the broadcast.
    BroadcastFailed,
}

impl PipelineError {
    /// A short human-readable description, in place of `Display`.
    pub fn message(&self) -> (r: &'static str)
        ensures
            r@ == self.message_spec(),
    {
        match self {
            PipelineError::TransportError => "failed to reach the wallet node",
            PipelineError::MalformedResponse => "malformed wallet response",
            PipelineError::InvalidUtxo => "unspent output is missing a required field",
            PipelineError::InsufficientFunds => "insufficient funds to cover the transaction fee",
            PipelineError::BuildFailed => "failed to create raw transaction",
            PipelineError::SignFailed => "failed to sign transaction",
            PipelineError::BroadcastFailed => "failed to send transaction",
        }
    }

    /// What `message` returns for each variant.
    pub open spec fn message_spec(self) -> Seq<char> {
        match self {
            PipelineError::TransportError => "failed to reach the wallet node"@,
            PipelineError::MalformedResponse => "malformed wallet response"@,
            PipelineError::InvalidUtxo => "unspent output is missing a required field"@,
            PipelineError::InsufficientFunds => "insufficient funds to cover the transaction fee"@,
            PipelineError::BuildFailed => "failed to create raw transaction"@,
            PipelineError::SignFailed => "failed to sign transaction"@,
            PipelineError::BroadcastFailed => "failed to send transaction"@,
        }
    }
}

} // verus!
