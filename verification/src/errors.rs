//! The closed error taxonomy of the chain-acceptance engine:
//! validation failures reject a block without mutating state, orphan
//! status buffers it, storage failures are retried, invariant
//! breaches are surfaced as their own kind.

use vstd::prelude::*;

use crate::amount::Amount;
use crate::index::SpendError;
use crate::keys::SignatureError;
use crate::primitives::{BlockHeight, Id};
use crate::sighash::TransactionSigError;

verus! {

#[derive(Debug, Clone, Copy, PartialEq, Eq, Structural)]
pub enum TokensError {
    InsufficientTokenFees(Id),
    TokensInBlockReward,
    TokenTransferWithoutIssuance(Id),
}

#[derive(Debug, Clone, Copy, PartialEq, Eq, Structural)]
pub enum TxIndexError {
    OutputAlreadyPresentInInputsCache,
    PreviouslyCachedInputNotFound,
    PreviouslyCachedInputWasErased,
    MissingOutputOrSpent,
    InvalidOutputCount,
    DoubleSpendAttempt(SpendError),
    InvariantBrokenSourceBlockIndexNotFound,
    BlockHeightArithmeticError,
    ImmatureBlockRewardSpend,
    TxNumWrongInBlock(usize),
}

#[derive(Debug, Clone, Copy, PartialEq, Eq, Structural)]
pub enum ConnectTransactionError {
    MissingOutputOrSpent,
    AttemptToPrintMoney(Amount, Amount),
    SignatureVerificationFailed(TransactionSigError),
    AttemptToSpendBurnedAmount,
    TimeLockViolation,
    TxNumWrongInBlockOnConnect(usize, Id),
    TxNumWrongInBlockOnDisconnect(usize, Id),
    InputAdditionError,
    OutputAdditionError,
    FeeAdditionError,
    RewardAdditionError(Id),
    BurnAmountSumError(Id),
    TokensError(TokensError),
    TxIndexError(TxIndexError),
    AccountingError(crate::accounting::AccountingError),
    MissingBlockUndo(Id),
    MissingTxUndo(Id),
    TxUndoWithDependency(Id),
    MissingBlockRewardUndo(Id),
    UtxoAlreadyExists,
    BlockIndexCouldNotBeLoaded(Id),
    InvalidOutputTypeInReward(Id),
    SpendStakeError,
    ProducingSignatureFailed(SignatureError),
    UndoMismatch,
}

#[derive(Debug, Clone, Copy, PartialEq, Eq, Structural)]
pub enum ConsensusVerificationError {
    ConsensusTypeMismatch(BlockHeight),
    InvalidPoW,
    BitsToTargetConversionFailed,
    NoKernel,
    InvalidOutputPurposeInStakeKernel,
    PoolBalanceNotFound(Id),
    PoolDataNotFound(Id),
    StakeKernelHashTooHigh,
    VRFDataVerificationFailed,
    PrevBlockIndexNotFound(Id),
}

#[derive(Debug, Clone, Copy, PartialEq, Eq, Structural)]
pub enum CheckBlockTransactionsError {
    DuplicateInputInTransaction(Id),
    DuplicateInputInBlock(Id),
    EmptyInputsOutputsInTransactionInBlock(Id),
}

#[derive(Debug, Clone, Copy, PartialEq, Eq, Structural)]
pub enum CheckBlockError {
    BlockTimeOrderInvalid,
    BlockFromTheFuture,
    BlockSizeError,
    ConsensusVerificationFailed(ConsensusVerificationError),
    CheckTransactionFailed(CheckBlockTransactionsError),
    PrevBlockNotFound(Id),
}

#[derive(Debug, Clone, Copy, PartialEq, Eq, Structural)]
pub enum OrphanCheckError {
    LocalOrphan,
    PrevBlockIdNotFound,
}

#[derive(Debug, Clone, Copy, PartialEq, Eq, Structural)]
pub enum PropertyQueryError {
    BestBlockIndexNotFound,
    BlockNotFound(Id),
    BlockIndexNotFound(Id),
    GenesisHeaderRequested,
    InvalidAncestorHeight { block_height: BlockHeight, ancestor_height: BlockHeight },
    StorageError(crate::storage::Error),
}

#[derive(Debug, Clone, Copy, PartialEq, Eq, Structural)]
pub enum BlockError {
    StorageError(crate::storage::Error),
    OrphanCheckFailed(OrphanCheckError),
    CheckBlockFailed(CheckBlockError),
    StateUpdateFailed(ConnectTransactionError),
    BestBlockLoadError(PropertyQueryError),
    InvariantErrorPrevBlockNotFound(Id),
    InvariantErrorFailedToFindNewChainPath(Id),
    InvariantErrorInvalidTip,
    BlockAlreadyExists(Id),
    DatabaseCommitError(Id, usize),
    BlockProofCalculationError(Id),
    BlockHeightArithmeticError,
    BlockAtHeightNotFound(BlockHeight),
    PoSAccountingDeltaNotFound(Id),
    TxIndexConfigError,
    InvalidOrphanHeight(BlockHeight),
    TxIndexError(TxIndexError),
}

#[derive(Debug, Clone, Copy, PartialEq, Eq, Structural)]
pub enum InitializationError {
    Block1Missing,
    GenesisMismatch(Id, Id),
    StorageError(crate::storage::Error),
}

#[derive(Debug, Clone, Copy, PartialEq, Eq, Structural)]
pub enum ChainstateError {
    FailedToInitializeChainstate(InitializationError),
    ProcessBlockError(BlockError),
    FailedToReadProperty(PropertyQueryError),
}

} // verus!
