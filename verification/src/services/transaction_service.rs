//! Creation of a transaction with atomic balance updates, as a sequence of
//! requests to the store, each decided from the answer to the one before.
use vstd::prelude::*;
use vstd::string::*;
use crate::encoding::{decimal_string, decimal_text, uuid_string, uuid_text};
use crate::models::transaction::{CreateTransaction, Transaction, TransactionStatus, TransactionType};

verus! {

/// Why a transaction could not be created.
#[derive(Debug)]
pub enum TransactionError {
    AccountNotFound(u128),
    /// The account, its balance and the amount required, in cents.
    InsufficientBalance(u128, i64, i64),
    AccountAccessDenied,
    /// A transaction with the same idempotency key exists; it is carried here.
    DuplicateIdempotencyKey(Transaction),
    /// The store failed; its message.
    Database(String),
}

impl TransactionError {
    /// The error described in words.
    pub open spec fn description(&self) -> Seq<char> {
        match self {
            TransactionError::AccountNotFound(id) => "Account not found: "@ + uuid_text(*id),
            TransactionError::InsufficientBalance(id, balance, required) => "Insufficient balance: account "@
                + uuid_text(*id) + " has "@ + decimal_text(*balance as int) + " cents, but "@ + decimal_text(
                *required as int,
            ) + " cents required"@,
            TransactionError::AccountAccessDenied => "Account does not belong to this API key"@,
            TransactionError::DuplicateIdempotencyKey(_) => "Duplicate idempotency key"@,
            TransactionError::Database(e) => "Database error: "@ + e@,
        }
    }

    /// The error described in words, for logs.
    pub fn describe(&self) -> (text: String)
        ensures
            text@ == self.description(),
    {
        match self {
            TransactionError::AccountNotFound(id) => String::from_str("Account not found: ").concat(
                uuid_string(*id).as_str(),
            ),
            TransactionError::InsufficientBalance(id, balance, required) => String::from_str(
                "Insufficient balance: account ",
            ).concat(uuid_string(*id).as_str()).concat(" has ").concat(decimal_string(*balance).as_str()).concat(
                " cents, but ",
            ).concat(decimal_string(*required).as_str()).concat(" cents required"),
            TransactionError::AccountAccessDenied => String::from_str("Account does not belong to this API key"),
            TransactionError::DuplicateIdempotencyKey(_) => String::from_str("Duplicate idempotency key"),
            TransactionError::Database(e) => String::from_str("Database error: ").concat(e.as_str()),
        }
    }
}

/// The values of a new transaction record, stored as pending.
pub struct NewTransaction {
    pub idempotency_key: Option<u128>,
    pub api_key_id: u128,
    pub transaction_type: TransactionType,
    pub source_account_id: Option<u128>,
    pub destination_account_id: Option<u128>,
    pub amount_cents: i64,
    pub status: TransactionStatus,
    pub metadata: String,
}

/// What the store is asked to do next.
pub enum StoreRequest {
    /// Find the transaction stored with this idempotency key.
    FindByIdempotencyKey(u128),
    /// Begin a store transaction; every request up to `Commit` runs in it.
    Begin,
    /// Read and lock the balance of this account if it is active.
    LockAccount(u128),
    /// Does this account belong to this API key?
    CheckOwnership { account_id: u128, api_key_id: u128 },
    /// Does this account exist and is it active?
    CheckActive(u128),
    /// Insert this record and return it as stored.
    InsertPending(NewTransaction),
    /// Subtract the amount from the account's balance.
    Withdraw { account_id: u128, amount_cents: i64 },
    /// Add the amount to the account's balance.
    Deposit { account_id: u128, amount_cents: i64 },
    /// Mark the transaction with this id completed and return it.
    MarkCompleted(u128),
    /// Commit the store transaction.
    Commit,
    /// Done: the result of the creation. A store transaction that was begun
    /// and not committed is rolled back.
    Finish(Result<Transaction, TransactionError>),
}

/// The store's answer to the last request.
pub enum StoreReply {
    /// To `FindByIdempotencyKey`.
    Existing(Option<Transaction>),
    /// To `Begin`, `Withdraw`, `Deposit` and `Commit`.
    Done,
    /// To `LockAccount`: the balance of the active account, if there is one.
    Balance(Option<i64>),
    /// To `CheckOwnership` and `CheckActive`.
    Exists(bool),
    /// To `InsertPending` and `MarkCompleted`: the record as stored.
    Record(Transaction),
    /// To any request: the store failed with this message.
    Failed(String),
}

/// Which answer a creation waits for.
#[derive(Clone, Copy, Debug, PartialEq, Eq, Structural)]
pub enum CreateStage {
    LookingUpKey,
    Beginning,
    ReadingSource,
    CheckingSourceOwner,
    CheckingDestination,
    CheckingDestinationOwner,
    Inserting,
    Withdrawing,
    Depositing,
    Completing,
    Committing,
    Finished,
}

/// A transaction being created.
pub struct TransactionCreation {
    pub api_key_id: u128,
    pub idempotency_key: Option<u128>,
    pub request: CreateTransaction,
    pub stage: CreateStage,
    /// The source's balance, once read.
    pub source_balance: i64,
    /// The id of the pending record, once inserted.
    pub pending_id: u128,
    /// The completed record, while its commit is awaited.
    pub completed: Option<Transaction>,
}

pub struct TransactionService;

impl TransactionCreation {
    /// The creation can go on: a completed record is held exactly while its
    /// commit is awaited, an account being checked is one the request names,
    /// and while balances are updated the request names the accounts its
    /// kind needs.
    pub open spec fn wf(&self) -> bool {
        &&& (self.stage == CreateStage::Withdrawing || self.stage == CreateStage::Depositing
            ==> self.request.names_required_accounts())
        &&& (self.stage == CreateStage::Committing <==> self.completed is Some)
        &&& (self.stage == CreateStage::ReadingSource || self.stage == CreateStage::CheckingSourceOwner
            ==> self.request.source_account_id is Some)
        &&& (self.stage == CreateStage::CheckingDestination || self.stage
            == CreateStage::CheckingDestinationOwner ==> self.request.destination_account_id is Some)
    }

    /// The reply answers the request this creation last made.
    pub open spec fn accepts(&self, reply: StoreReply) -> bool {
        match reply {
            StoreReply::Failed(_) => self.stage != CreateStage::Finished,
            StoreReply::Existing(_) => self.stage == CreateStage::LookingUpKey,
            StoreReply::Balance(_) => self.stage == CreateStage::ReadingSource,
            StoreReply::Exists(_) => self.stage == CreateStage::CheckingSourceOwner || self.stage
                == CreateStage::CheckingDestination || self.stage == CreateStage::CheckingDestinationOwner,
            StoreReply::Record(_) => self.stage == CreateStage::Inserting || self.stage
                == CreateStage::Completing,
            StoreReply::Done => self.stage == CreateStage::Beginning || self.stage
                == CreateStage::Withdrawing || self.stage == CreateStage::Depositing || self.stage
                == CreateStage::Committing,
        }
    }

    /// The creation waits for the answer to this request.
    pub open spec fn awaits(&self, request: StoreRequest) -> bool {
        match request {
            StoreRequest::FindByIdempotencyKey(_) => self.stage == CreateStage::LookingUpKey,
            StoreRequest::Begin => self.stage == CreateStage::Beginning,
            StoreRequest::LockAccount(_) => self.stage == CreateStage::ReadingSource,
            StoreRequest::CheckOwnership { .. } => self.stage == CreateStage::CheckingSourceOwner
                || self.stage == CreateStage::CheckingDestinationOwner,
            StoreRequest::CheckActive(_) => self.stage == CreateStage::CheckingDestination,
            StoreRequest::InsertPending(_) => self.stage == CreateStage::Inserting,
            StoreRequest::Withdraw { .. } => self.stage == CreateStage::Withdrawing,
            StoreRequest::Deposit { .. } => self.stage == CreateStage::Depositing,
            StoreRequest::MarkCompleted(_) => self.stage == CreateStage::Completing,
            StoreRequest::Commit => self.stage == CreateStage::Committing,
            StoreRequest::Finish(_) => self.stage == CreateStage::Finished,
        }
    }

    /// This creation in another stage.
    pub open spec fn at(self, stage: CreateStage) -> TransactionCreation {
        TransactionCreation { stage, ..self }
    }

    /// Stop with a result.
    pub open spec fn finish(self, outcome: Result<Transaction, TransactionError>) -> (
        TransactionCreation,
        StoreRequest,
    ) {
        (TransactionCreation { stage: CreateStage::Finished, completed: None, ..self }, StoreRequest::Finish(outcome))
    }

    /// The record to insert: the request's values, pending.
    pub open spec fn new_record(self) -> NewTransaction {
        NewTransaction {
            idempotency_key: self.idempotency_key,
            api_key_id: self.api_key_id,
            transaction_type: self.request.transaction_type,
            source_account_id: self.request.source_account_id,
            destination_account_id: self.request.destination_account_id,
            amount_cents: self.request.amount_cents,
            status: TransactionStatus::Pending,
            metadata: self.request.metadata,
        }
    }

    /// Insert the pending record.
    pub open spec fn insert_step(self) -> (TransactionCreation, StoreRequest) {
        (self.at(CreateStage::Inserting), StoreRequest::InsertPending(self.new_record()))
    }

    /// Check the destination, if one is named; else insert.
    pub open spec fn destination_step(self) -> (TransactionCreation, StoreRequest) {
        match self.request.destination_account_id {
            Some(d) => (self.at(CreateStage::CheckingDestination), StoreRequest::CheckActive(d)),
            None => self.insert_step(),
        }
    }

    /// Check the source, if one is named; else go on to the destination.
    pub open spec fn source_step(self) -> (TransactionCreation, StoreRequest) {
        match self.request.source_account_id {
            Some(s) => (self.at(CreateStage::ReadingSource), StoreRequest::LockAccount(s)),
            None => self.destination_step(),
        }
    }

    /// Mark the pending record completed.
    pub open spec fn completion_step(self) -> (TransactionCreation, StoreRequest) {
        (self.at(CreateStage::Completing), StoreRequest::MarkCompleted(self.pending_id))
    }

    /// Credit the destination.
    pub open spec fn deposit_step(self) -> (TransactionCreation, StoreRequest) {
        (
            self.at(CreateStage::Depositing),
            StoreRequest::Deposit {
                account_id: self.request.destination_account_id->0,
                amount_cents: self.request.amount_cents,
            },
        )
    }

    /// The first balance update: a credit deposits, a debit or a transfer
    /// withdraws from the source first.
    pub open spec fn balance_step(self) -> (TransactionCreation, StoreRequest) {
        match self.request.transaction_type {
            TransactionType::Credit => self.deposit_step(),
            _ => (
                self.at(CreateStage::Withdrawing),
                StoreRequest::Withdraw {
                    account_id: self.request.source_account_id->0,
                    amount_cents: self.request.amount_cents,
                },
            ),
        }
    }

    /// The next state and request, given the store's reply to the last one.
    pub open spec fn next(self, reply: StoreReply) -> (TransactionCreation, StoreRequest) {
        match reply {
            StoreReply::Failed(message) => self.finish(Err(TransactionError::Database(message))),
            StoreReply::Existing(found) => match found {
                Some(existing) => self.finish(Err(TransactionError::DuplicateIdempotencyKey(existing))),
                None => (self.at(CreateStage::Beginning), StoreRequest::Begin),
            },
            StoreReply::Balance(row) => {
                let source = self.request.source_account_id->0;
                match row {
                    None => self.finish(Err(TransactionError::AccountNotFound(source))),
                    Some(balance) => (
                        TransactionCreation {
                            stage: CreateStage::CheckingSourceOwner,
                            source_balance: balance,
                            ..self
                        },
                        StoreRequest::CheckOwnership { account_id: source, api_key_id: self.api_key_id },
                    ),
                }
            },
            StoreReply::Exists(yes) => {
                if self.stage == CreateStage::CheckingSourceOwner {
                    if !yes {
                        self.finish(Err(TransactionError::AccountAccessDenied))
                    } else if self.source_balance < self.request.amount_cents {
                        self.finish(
                            Err(
                                TransactionError::InsufficientBalance(
                                    self.request.source_account_id->0,
                                    self.source_balance,
                                    self.request.amount_cents,
                                ),
                            ),
                        )
                    } else {
                        self.destination_step()
                    }
                } else if self.stage == CreateStage::CheckingDestination {
                    let destination = self.request.destination_account_id->0;
                    if yes {
                        (
                            self.at(CreateStage::CheckingDestinationOwner),
                            StoreRequest::CheckOwnership {
                                account_id: destination,
                                api_key_id: self.api_key_id,
                            },
                        )
                    } else {
                        self.finish(Err(TransactionError::AccountNotFound(destination)))
                    }
                } else {
                    if yes {
                        self.insert_step()
                    } else {
                        self.finish(Err(TransactionError::AccountAccessDenied))
                    }
                }
            },
            StoreReply::Record(record) => {
                if self.stage == CreateStage::Inserting {
                    TransactionCreation { pending_id: record.id, ..self }.balance_step()
                } else {
                    (
                        TransactionCreation {
                            stage: CreateStage::Committing,
                            completed: Some(record),
                            ..self
                        },
                        StoreRequest::Commit,
                    )
                }
            },
            StoreReply::Done => {
                if self.stage == CreateStage::Beginning {
                    self.source_step()
                } else if self.stage == CreateStage::Withdrawing {
                    if self.request.transaction_type == TransactionType::Transfer {
                        self.deposit_step()
                    } else {
                        self.completion_step()
                    }
                } else if self.stage == CreateStage::Depositing {
                    self.completion_step()
                } else {
                    self.finish(Ok(self.completed->0))
                }
            },
        }
    }
}

impl TransactionCreation {
    /// A creation at its first request: the idempotency key is looked up if
    /// one is given; else the store transaction begins.
    pub open spec fn start(api_key_id: u128, request: CreateTransaction, idempotency_key: Option<u128>) -> (
        TransactionCreation,
        StoreRequest,
    ) {
        let creation = TransactionCreation {
            api_key_id,
            idempotency_key,
            request,
            stage: CreateStage::LookingUpKey,
            source_balance: 0,
            pending_id: 0,
            completed: None,
        };
        match idempotency_key {
            Some(key) => (creation, StoreRequest::FindByIdempotencyKey(key)),
            None => (creation.at(CreateStage::Beginning), StoreRequest::Begin),
        }
    }

    fn finish_with(&mut self, outcome: Result<Transaction, TransactionError>) -> (request: StoreRequest)
        ensures
            (*final(self), request) == old(self).finish(outcome),
    {
        self.stage = CreateStage::Finished;
        self.completed = None;
        StoreRequest::Finish(outcome)
    }

    fn insert_now(&mut self) -> (request: StoreRequest)
        ensures
            (*final(self), request) == old(self).insert_step(),
    {
        self.stage = CreateStage::Inserting;
        StoreRequest::InsertPending(
            NewTransaction {
                idempotency_key: self.idempotency_key,
                api_key_id: self.api_key_id,
                transaction_type: self.request.transaction_type,
                source_account_id: self.request.source_account_id,
                destination_account_id: self.request.destination_account_id,
                amount_cents: self.request.amount_cents,
                status: TransactionStatus::Pending,
                metadata: self.request.metadata.clone(),
            },
        )
    }

    fn check_destination(&mut self) -> (request: StoreRequest)
        ensures
            (*final(self), request) == old(self).destination_step(),
    {
        match self.request.destination_account_id {
            Some(d) => {
                self.stage = CreateStage::CheckingDestination;
                StoreRequest::CheckActive(d)
            },
            None => self.insert_now(),
        }
    }

    fn deposit_now(&mut self) -> (request: StoreRequest)
        requires
            old(self).request.destination_account_id is Some,
        ensures
            (*final(self), request) == old(self).deposit_step(),
    {
        self.stage = CreateStage::Depositing;
        StoreRequest::Deposit {
            account_id: self.request.destination_account_id.unwrap(),
            amount_cents: self.request.amount_cents,
        }
    }

    fn complete_now(&mut self) -> (request: StoreRequest)
        ensures
            (*final(self), request) == old(self).completion_step(),
    {
        self.stage = CreateStage::Completing;
        StoreRequest::MarkCompleted(self.pending_id)
    }

    /// Takes the store's reply to the last request and says what to ask next.
    /// The balances are updated only for a request that names the accounts
    /// its kind needs.
    pub fn advance(&mut self, reply: StoreReply) -> (request: StoreRequest)
        requires
            old(self).wf(),
            old(self).accepts(reply),
            old(self).stage == CreateStage::Inserting && reply is Record ==> old(
                self,
            ).request.names_required_accounts(),
        ensures
            (*final(self), request) == old(self).next(reply),
            final(self).wf(),
            final(self).awaits(request),
    {
        match reply {
            StoreReply::Existing(found) => match found {
                Some(existing) => self.finish_with(
                    Err(TransactionError::DuplicateIdempotencyKey(existing)),
                ),
                None => {
                    self.stage = CreateStage::Beginning;
                    StoreRequest::Begin
                },
            },
            StoreReply::Balance(row) => {
                let source = self.request.source_account_id.unwrap();
                match row {
                    None => self.finish_with(Err(TransactionError::AccountNotFound(source))),
                    Some(balance) => {
                        self.stage = CreateStage::CheckingSourceOwner;
                        self.source_balance = balance;
                        StoreRequest::CheckOwnership { account_id: source, api_key_id: self.api_key_id }
                    },
                }
            },
            StoreReply::Exists(yes) => {
                if self.stage == CreateStage::CheckingSourceOwner {
                    if !yes {
                        self.finish_with(Err(TransactionError::AccountAccessDenied))
                    } else if self.source_balance < self.request.amount_cents {
                        let source = self.request.source_account_id.unwrap();
                        let balance = self.source_balance;
                        let required = self.request.amount_cents;
                        self.finish_with(Err(TransactionError::InsufficientBalance(source, balance, required)))
                    } else {
                        self.check_destination()
                    }
                } else if self.stage == CreateStage::CheckingDestination {
                    let destination = self.request.destination_account_id.unwrap();
                    if yes {
                        self.stage = CreateStage::CheckingDestinationOwner;
                        StoreRequest::CheckOwnership { account_id: destination, api_key_id: self.api_key_id }
                    } else {
                        self.finish_with(Err(TransactionError::AccountNotFound(destination)))
                    }
                } else {
                    if yes {
                        self.insert_now()
                    } else {
                        self.finish_with(Err(TransactionError::AccountAccessDenied))
                    }
                }
            },
            StoreReply::Record(record) => {
                if self.stage == CreateStage::Inserting {
                    self.pending_id = record.id;
                    match self.request.transaction_type {
                        TransactionType::Credit => self.deposit_now(),
                        _ => {
                            self.stage = CreateStage::Withdrawing;
                            let source = self.request.source_account_id.unwrap();
                            StoreRequest::Withdraw { account_id: source, amount_cents: self.request.amount_cents }
                        },
                    }
                } else {
                    self.stage = CreateStage::Committing;
                    self.completed = Some(record);
                    StoreRequest::Commit
                }
            },
            StoreReply::Done => {
                if self.stage == CreateStage::Beginning {
                    match self.request.source_account_id {
                        Some(s) => {
                            self.stage = CreateStage::ReadingSource;
                            StoreRequest::LockAccount(s)
                        },
                        None => self.check_destination(),
                    }
                } else if self.stage == CreateStage::Withdrawing {
                    if self.request.transaction_type == TransactionType::Transfer {
                        self.deposit_now()
                    } else {
                        self.complete_now()
                    }
                } else if self.stage == CreateStage::Depositing {
                    self.complete_now()
                } else {
                    let completed = self.completed.take().unwrap();
                    self.finish_with(Ok(completed))
                }
            },
            StoreReply::Failed(message) => self.finish_with(Err(TransactionError::Database(message))),
        }
    }
}

impl TransactionService {
    /// Create a new transaction with atomic balance updates: returns the
    /// creation and the first request to put to the store.
    pub fn create(api_key_id: u128, request: CreateTransaction, idempotency_key: Option<u128>) -> (started: (
        TransactionCreation,
        StoreRequest,
    ))
        ensures
            started == TransactionCreation::start(api_key_id, request, idempotency_key),
            started.0.wf(),
            started.0.awaits(started.1),
    {
        let creation = TransactionCreation {
            api_key_id,
            idempotency_key,
            request,
            stage: CreateStage::LookingUpKey,
            source_balance: 0,
            pending_id: 0,
            completed: None,
        };
        match idempotency_key {
            Some(key) => (creation, StoreRequest::FindByIdempotencyKey(key)),
            None => {
                let mut creation = creation;
                creation.stage = CreateStage::Beginning;
                (creation, StoreRequest::Begin)
            },
        }
    }
}

/// How a store that does not fail answers a request, given the transactions
/// it holds by idempotency key, its accounts (owner, balance, active) by id,
/// and the records it returns on insertion and on completion.
pub open spec fn store_answer(
    by_key: Map<u128, Transaction>,
    accounts: Map<u128, (u128, i64, bool)>,
    inserted: Transaction,
    completed: Transaction,
    request: StoreRequest,
) -> StoreReply {
    match request {
        StoreRequest::FindByIdempotencyKey(key) => StoreReply::Existing(
            if by_key.contains_key(key) {
                Some(by_key[key])
            } else {
                None
            },
        ),
        StoreRequest::LockAccount(id) => StoreReply::Balance(
            if accounts.contains_key(id) && accounts[id].2 {
                Some(accounts[id].1)
            } else {
                None
            },
        ),
        StoreRequest::CheckOwnership { account_id, api_key_id } => StoreReply::Exists(
            accounts.contains_key(account_id) && accounts[account_id].0 == api_key_id,
        ),
        StoreRequest::CheckActive(id) => StoreReply::Exists(accounts.contains_key(id) && accounts[id].2),
        StoreRequest::InsertPending(_) => StoreReply::Record(inserted),
        StoreRequest::MarkCompleted(_) => StoreReply::Record(completed),
        _ => StoreReply::Done,
    }
}

/// The requests a creation makes, from `request` on, when such a store
/// answers them: at most `fuel` answers are taken.
pub open spec fn store_run(
    creation: TransactionCreation,
    request: StoreRequest,
    by_key: Map<u128, Transaction>,
    accounts: Map<u128, (u128, i64, bool)>,
    inserted: Transaction,
    completed: Transaction,
    fuel: nat,
) -> Seq<StoreRequest>
    decreases fuel,
{
    if fuel == 0 || request is Finish {
        seq![request]
    } else {
        let (after, next_request) = creation.next(
            store_answer(by_key, accounts, inserted, completed, request),
        );
        seq![request] + store_run(after, next_request, by_key, accounts, inserted, completed, (fuel - 1) as nat)
    }
}

/// The requests of a whole creation against such a store.
pub open spec fn creation_trace(
    api_key_id: u128,
    request: CreateTransaction,
    idempotency_key: Option<u128>,
    by_key: Map<u128, Transaction>,
    accounts: Map<u128, (u128, i64, bool)>,
    inserted: Transaction,
    completed: Transaction,
) -> Seq<StoreRequest> {
    let (creation, first) = TransactionCreation::start(api_key_id, request, idempotency_key);
    store_run(creation, first, by_key, accounts, inserted, completed, 16)
}

/// The result a creation must have against such a store: a transaction with
/// the same idempotency key is returned as a duplicate; else a named source
/// must be active, belong to the API key and hold at least the amount (the
/// balance of another business's account is never disclosed); a named
/// destination must be active and belong to the API key; else the completed
/// record is returned.
pub open spec fn creation_outcome(
    api_key_id: u128,
    request: CreateTransaction,
    idempotency_key: Option<u128>,
    by_key: Map<u128, Transaction>,
    accounts: Map<u128, (u128, i64, bool)>,
    completed: Transaction,
) -> Result<Transaction, TransactionError> {
    let source = request.source_account_id;
    let destination = request.destination_account_id;
    if idempotency_key is Some && by_key.contains_key(idempotency_key->0) {
        Err(TransactionError::DuplicateIdempotencyKey(by_key[idempotency_key->0]))
    } else if source is Some && !(accounts.contains_key(source->0) && accounts[source->0].2) {
        Err(TransactionError::AccountNotFound(source->0))
    } else if source is Some && accounts[source->0].0 != api_key_id {
        Err(TransactionError::AccountAccessDenied)
    } else if source is Some && accounts[source->0].1 < request.amount_cents {
        Err(TransactionError::InsufficientBalance(source->0, accounts[source->0].1, request.amount_cents))
    } else if destination is Some && !(accounts.contains_key(destination->0)
        && accounts[destination->0].2) {
        Err(TransactionError::AccountNotFound(destination->0))
    } else if destination is Some && accounts[destination->0].0 != api_key_id {
        Err(TransactionError::AccountAccessDenied)
    } else {
        Ok(completed)
    }
}

/// The balance updates of a transaction: a credit deposits into the
/// destination, a debit withdraws from the source, a transfer withdraws from
/// the source and deposits the same amount into the destination.
pub open spec fn balance_requests(request: CreateTransaction) -> Seq<StoreRequest> {
    let withdraw = StoreRequest::Withdraw {
        account_id: request.source_account_id->0,
        amount_cents: request.amount_cents,
    };
    let deposit = StoreRequest::Deposit {
        account_id: request.destination_account_id->0,
        amount_cents: request.amount_cents,
    };
    match request.transaction_type {
        TransactionType::Credit => seq![deposit],
        TransactionType::Debit => seq![withdraw],
        TransactionType::Transfer => seq![withdraw, deposit],
    }
}

/// The kind of the reply fits the request: a failure answers any request
/// but the final one.
pub open spec fn answers(request: StoreRequest, reply: StoreReply) -> bool {
    match reply {
        StoreReply::Failed(_) => !(request is Finish),
        StoreReply::Existing(_) => request is FindByIdempotencyKey,
        StoreReply::Balance(_) => request is LockAccount,
        StoreReply::Exists(_) => request is CheckOwnership || request is CheckActive,
        StoreReply::Record(_) => request is InsertPending || request is MarkCompleted,
        StoreReply::Done => request is Begin || request is Withdraw || request is Deposit || request is Commit,
    }
}

/// A store failure ends the creation at once: whatever the creation waited
/// for, a failed reply finishes it with the store's error, so nothing after
/// the failure is written or committed.
pub proof fn law_store_failure_stops(creation: TransactionCreation, message: String)
    ensures
        creation.next(StoreReply::Failed(message)) == creation.finish(Err(TransactionError::Database(message))),
        creation.next(StoreReply::Failed(message)).1 == StoreRequest::Finish(
            Err::<Transaction, TransactionError>(TransactionError::Database(message)),
        ),
{
}

/// Answering each request with a reply of its kind is always accepted: a
/// creation waiting for the answer to a request accepts every reply that
/// fits that request.
pub proof fn law_fitting_reply_accepted(creation: TransactionCreation, request: StoreRequest, reply: StoreReply)
    requires
        creation.awaits(request),
        answers(request, reply),
    ensures
        creation.accepts(reply),
{
}

/// A request that only reads, or begins the store transaction.
pub open spec fn is_read(request: StoreRequest) -> bool {
    request is FindByIdempotencyKey || request is Begin || request is LockAccount
        || request is CheckOwnership || request is CheckActive
}

/// The writes of a successful creation, in order: the pending record, the
/// balance updates, the completion, the commit and the result.
pub open spec fn write_phase(
    creation: TransactionCreation,
    inserted: Transaction,
    completed: Transaction,
) -> Seq<StoreRequest> {
    seq![StoreRequest::InsertPending(creation.new_record())] + balance_requests(creation.request) + seq![
        StoreRequest::MarkCompleted(inserted.id),
        StoreRequest::Commit,
        StoreRequest::Finish(Ok(completed)),
    ]
}

proof fn lemma_run_step(
    creation: TransactionCreation,
    request: StoreRequest,
    by_key: Map<u128, Transaction>,
    accounts: Map<u128, (u128, i64, bool)>,
    inserted: Transaction,
    completed: Transaction,
    fuel: nat,
)
    requires
        fuel > 0,
        !(request is Finish),
    ensures
        store_run(creation, request, by_key, accounts, inserted, completed, fuel) == seq![request]
            + store_run(
            creation.next(store_answer(by_key, accounts, inserted, completed, request)).0,
            creation.next(store_answer(by_key, accounts, inserted, completed, request)).1,
            by_key,
            accounts,
            inserted,
            completed,
            (fuel - 1) as nat,
        ),
{
}

proof fn lemma_run_finish(
    creation: TransactionCreation,
    request: StoreRequest,
    by_key: Map<u128, Transaction>,
    accounts: Map<u128, (u128, i64, bool)>,
    inserted: Transaction,
    completed: Transaction,
    fuel: nat,
)
    requires
        request is Finish,
    ensures
        store_run(creation, request, by_key, accounts, inserted, completed, fuel) == seq![request],
{
}

/// From the insertion of the pending record on, a creation makes exactly the
/// writes of its kind and finishes with the completed record.
proof fn lemma_write_phase(
    creation: TransactionCreation,
    by_key: Map<u128, Transaction>,
    accounts: Map<u128, (u128, i64, bool)>,
    inserted: Transaction,
    completed: Transaction,
    fuel: nat,
)
    requires
        fuel >= 6,
    ensures
        store_run(creation.insert_step().0, creation.insert_step().1, by_key, accounts, inserted, completed, fuel)
            == write_phase(creation, inserted, completed),
{
    let (c1, r1) = creation.insert_step();
    lemma_run_step(c1, r1, by_key, accounts, inserted, completed, fuel);
    let (c2, r2) = c1.next(store_answer(by_key, accounts, inserted, completed, r1));
    assert(c2.pending_id == inserted.id);
    lemma_run_step(c2, r2, by_key, accounts, inserted, completed, (fuel - 1) as nat);
    let (c3, r3) = c2.next(store_answer(by_key, accounts, inserted, completed, r2));
    lemma_run_step(c3, r3, by_key, accounts, inserted, completed, (fuel - 2) as nat);
    let (c4, r4) = c3.next(store_answer(by_key, accounts, inserted, completed, r3));
    lemma_run_step(c4, r4, by_key, accounts, inserted, completed, (fuel - 3) as nat);
    let (c5, r5) = c4.next(store_answer(by_key, accounts, inserted, completed, r4));
    if creation.request.transaction_type == TransactionType::Transfer {
        lemma_run_step(c5, r5, by_key, accounts, inserted, completed, (fuel - 4) as nat);
        let (c6, r6) = c5.next(store_answer(by_key, accounts, inserted, completed, r5));
        lemma_run_finish(c6, r6, by_key, accounts, inserted, completed, (fuel - 5) as nat);
        assert(store_run(c1, r1, by_key, accounts, inserted, completed, fuel) =~= write_phase(
            creation,
            inserted,
            completed,
        ));
    } else {
        lemma_run_finish(c5, r5, by_key, accounts, inserted, completed, (fuel - 4) as nat);
        assert(store_run(c1, r1, by_key, accounts, inserted, completed, fuel) =~= write_phase(
            creation,
            inserted,
            completed,
        ));
    }
}

/// A named source refuses the transaction: it is not an active account, it
/// belongs to another API key, or it holds less than the amount.
pub open spec fn source_refuses(
    api_key_id: u128,
    request: CreateTransaction,
    accounts: Map<u128, (u128, i64, bool)>,
) -> bool {
    let s = request.source_account_id->0;
    request.source_account_id is Some && (!(accounts.contains_key(s) && accounts[s].2)
        || accounts[s].0 != api_key_id || accounts[s].1 < request.amount_cents)
}

/// A named destination refuses the transaction: it is not an active account
/// or it belongs to another API key.
pub open spec fn destination_refuses(
    api_key_id: u128,
    request: CreateTransaction,
    accounts: Map<u128, (u128, i64, bool)>,
) -> bool {
    let d = request.destination_account_id->0;
    request.destination_account_id is Some && (!(accounts.contains_key(d) && accounts[d].2)
        || accounts[d].0 != api_key_id)
}

/// Why a refusing source refuses.
pub open spec fn source_error(
    api_key_id: u128,
    request: CreateTransaction,
    accounts: Map<u128, (u128, i64, bool)>,
) -> TransactionError {
    let s = request.source_account_id->0;
    if !(accounts.contains_key(s) && accounts[s].2) {
        TransactionError::AccountNotFound(s)
    } else if accounts[s].0 != api_key_id {
        TransactionError::AccountAccessDenied
    } else {
        TransactionError::InsufficientBalance(s, accounts[s].1, request.amount_cents)
    }
}

/// Why a refusing destination refuses.
pub open spec fn destination_error(
    request: CreateTransaction,
    accounts: Map<u128, (u128, i64, bool)>,
) -> TransactionError {
    let d = request.destination_account_id->0;
    if !(accounts.contains_key(d) && accounts[d].2) {
        TransactionError::AccountNotFound(d)
    } else {
        TransactionError::AccountAccessDenied
    }
}

/// What follows the reads: the refusal, or the writes.
pub open spec fn decision_ending(
    creation: TransactionCreation,
    accounts: Map<u128, (u128, i64, bool)>,
    inserted: Transaction,
    completed: Transaction,
) -> Seq<StoreRequest> {
    if source_refuses(creation.api_key_id, creation.request, accounts) {
        seq![StoreRequest::Finish(Err(source_error(creation.api_key_id, creation.request, accounts)))]
    } else if destination_refuses(creation.api_key_id, creation.request, accounts) {
        seq![StoreRequest::Finish(Err(destination_error(creation.request, accounts)))]
    } else {
        write_phase(creation, inserted, completed)
    }
}

/// The reads made about the source: its balance, then, if it is active, its
/// owner.
pub open spec fn source_reads(
    api_key_id: u128,
    request: CreateTransaction,
    accounts: Map<u128, (u128, i64, bool)>,
) -> Seq<StoreRequest> {
    let s = request.source_account_id->0;
    if request.source_account_id is None {
        seq![]
    } else if !(accounts.contains_key(s) && accounts[s].2) {
        seq![StoreRequest::LockAccount(s)]
    } else {
        seq![StoreRequest::LockAccount(s), StoreRequest::CheckOwnership { account_id: s, api_key_id }]
    }
}

/// The reads made about the destination: whether it is active, then, if it
/// is, its owner.
pub open spec fn destination_reads(
    api_key_id: u128,
    request: CreateTransaction,
    accounts: Map<u128, (u128, i64, bool)>,
) -> Seq<StoreRequest> {
    let d = request.destination_account_id->0;
    if request.destination_account_id is None {
        seq![]
    } else if !(accounts.contains_key(d) && accounts[d].2) {
        seq![StoreRequest::CheckActive(d)]
    } else {
        seq![StoreRequest::CheckActive(d), StoreRequest::CheckOwnership { account_id: d, api_key_id }]
    }
}

/// All reads of a creation, up to its decision.
pub open spec fn creation_reads(
    api_key_id: u128,
    request: CreateTransaction,
    idempotency_key: Option<u128>,
    by_key: Map<u128, Transaction>,
    accounts: Map<u128, (u128, i64, bool)>,
) -> Seq<StoreRequest> {
    let key_reads = match idempotency_key {
        Some(key) => seq![StoreRequest::FindByIdempotencyKey(key)],
        None => seq![],
    };
    if idempotency_key is Some && by_key.contains_key(idempotency_key->0) {
        key_reads
    } else if source_refuses(api_key_id, request, accounts) {
        key_reads + seq![StoreRequest::Begin] + source_reads(api_key_id, request, accounts)
    } else {
        key_reads + seq![StoreRequest::Begin] + source_reads(api_key_id, request, accounts)
            + destination_reads(api_key_id, request, accounts)
    }
}

/// From the destination check on.
proof fn lemma_destination_phase(
    creation: TransactionCreation,
    by_key: Map<u128, Transaction>,
    accounts: Map<u128, (u128, i64, bool)>,
    inserted: Transaction,
    completed: Transaction,
    fuel: nat,
)
    requires
        fuel >= 8,
    ensures
        store_run(
            creation.destination_step().0,
            creation.destination_step().1,
            by_key,
            accounts,
            inserted,
            completed,
            fuel,
        ) == destination_reads(creation.api_key_id, creation.request, accounts) + if destination_refuses(
            creation.api_key_id,
            creation.request,
            accounts,
        ) {
            seq![StoreRequest::Finish(Err(destination_error(creation.request, accounts)))]
        } else {
            write_phase(creation, inserted, completed)
        },
{
    let api = creation.api_key_id;
    let request = creation.request;
    match request.destination_account_id {
        None => {
            lemma_write_phase(creation, by_key, accounts, inserted, completed, fuel);
            assert(destination_reads(api, request, accounts) =~= seq![]);
            assert(destination_reads(api, request, accounts) + write_phase(creation, inserted, completed)
                =~= write_phase(creation, inserted, completed));
        },
        Some(d) => {
            let (c1, r1) = creation.destination_step();
            lemma_run_step(c1, r1, by_key, accounts, inserted, completed, fuel);
            let (c2, r2) = c1.next(store_answer(by_key, accounts, inserted, completed, r1));
            if !(accounts.contains_key(d) && accounts[d].2) {
                lemma_run_finish(c2, r2, by_key, accounts, inserted, completed, (fuel - 1) as nat);
                assert(store_run(c1, r1, by_key, accounts, inserted, completed, fuel) =~= destination_reads(
                    api,
                    request,
                    accounts,
                ) + seq![r2]);
            } else {
                lemma_run_step(c2, r2, by_key, accounts, inserted, completed, (fuel - 1) as nat);
                let (c3, r3) = c2.next(store_answer(by_key, accounts, inserted, completed, r2));
                if accounts[d].0 != api {
                    lemma_run_finish(c3, r3, by_key, accounts, inserted, completed, (fuel - 2) as nat);
                    assert(store_run(c1, r1, by_key, accounts, inserted, completed, fuel)
                        =~= destination_reads(api, request, accounts) + seq![r3]);
                } else {
                    assert(c2.insert_step() == (c3, r3));
                    lemma_write_phase(c2, by_key, accounts, inserted, completed, (fuel - 2) as nat);
                    assert(write_phase(c2, inserted, completed) == write_phase(creation, inserted, completed));
                    assert(store_run(c1, r1, by_key, accounts, inserted, completed, fuel)
                        =~= destination_reads(api, request, accounts) + write_phase(
                        creation,
                        inserted,
                        completed,
                    ));
                }
            }
        },
    }
}

/// From the source check on.
proof fn lemma_source_phase(
    creation: TransactionCreation,
    by_key: Map<u128, Transaction>,
    accounts: Map<u128, (u128, i64, bool)>,
    inserted: Transaction,
    completed: Transaction,
    fuel: nat,
)
    requires
        fuel >= 10,
    ensures
        store_run(creation.source_step().0, creation.source_step().1, by_key, accounts, inserted, completed, fuel)
            == if source_refuses(creation.api_key_id, creation.request, accounts) {
            source_reads(creation.api_key_id, creation.request, accounts) + decision_ending(
                creation,
                accounts,
                inserted,
                completed,
            )
        } else {
            source_reads(creation.api_key_id, creation.request, accounts) + destination_reads(
                creation.api_key_id,
                creation.request,
                accounts,
            ) + decision_ending(creation, accounts, inserted, completed)
        },
{
    let api = creation.api_key_id;
    let request = creation.request;
    match request.source_account_id {
        None => {
            lemma_destination_phase(creation, by_key, accounts, inserted, completed, fuel);
            assert(source_reads(api, request, accounts) =~= seq![]);
            let rest = destination_reads(api, request, accounts) + decision_ending(
                creation,
                accounts,
                inserted,
                completed,
            );
            assert(source_reads(api, request, accounts) + destination_reads(api, request, accounts)
                + decision_ending(creation, accounts, inserted, completed) =~= rest);
        },
        Some(s) => {
            let (c1, r1) = creation.source_step();
            lemma_run_step(c1, r1, by_key, accounts, inserted, completed, fuel);
            let (c2, r2) = c1.next(store_answer(by_key, accounts, inserted, completed, r1));
            if !(accounts.contains_key(s) && accounts[s].2) {
                lemma_run_finish(c2, r2, by_key, accounts, inserted, completed, (fuel - 1) as nat);
                assert(store_run(c1, r1, by_key, accounts, inserted, completed, fuel) =~= source_reads(
                    api,
                    request,
                    accounts,
                ) + decision_ending(creation, accounts, inserted, completed));
            } else {
                lemma_run_step(c2, r2, by_key, accounts, inserted, completed, (fuel - 1) as nat);
                let (c3, r3) = c2.next(store_answer(by_key, accounts, inserted, completed, r2));
                if accounts[s].0 != api || accounts[s].1 < request.amount_cents {
                    lemma_run_finish(c3, r3, by_key, accounts, inserted, completed, (fuel - 2) as nat);
                    assert(store_run(c1, r1, by_key, accounts, inserted, completed, fuel) =~= source_reads(
                        api,
                        request,
                        accounts,
                    ) + decision_ending(creation, accounts, inserted, completed));
                } else {
                    assert(c2.destination_step() == (c3, r3));
                    lemma_destination_phase(c2, by_key, accounts, inserted, completed, (fuel - 2) as nat);
                    assert(write_phase(c2, inserted, completed) == write_phase(creation, inserted, completed));
                    assert(decision_ending(c2, accounts, inserted, completed) == decision_ending(
                        creation,
                        accounts,
                        inserted,
                        completed,
                    ));
                    assert(store_run(c1, r1, by_key, accounts, inserted, completed, fuel) =~= source_reads(
                        api,
                        request,
                        accounts,
                    ) + destination_reads(api, request, accounts) + decision_ending(
                        creation,
                        accounts,
                        inserted,
                        completed,
                    ));
                }
            }
        },
    }
}

/// A whole creation against a store that does not fail: its reads, then
/// either its refusal or its writes.
proof fn lemma_creation_trace(
    api_key_id: u128,
    request: CreateTransaction,
    idempotency_key: Option<u128>,
    by_key: Map<u128, Transaction>,
    accounts: Map<u128, (u128, i64, bool)>,
    inserted: Transaction,
    completed: Transaction,
)
    ensures
        creation_trace(api_key_id, request, idempotency_key, by_key, accounts, inserted, completed)
            == creation_reads(api_key_id, request, idempotency_key, by_key, accounts) + if idempotency_key is Some
            && by_key.contains_key(idempotency_key->0) {
            seq![StoreRequest::Finish(Err(TransactionError::DuplicateIdempotencyKey(by_key[idempotency_key->0])))]
        } else {
            decision_ending(
                TransactionCreation::start(api_key_id, request, idempotency_key).0,
                accounts,
                inserted,
                completed,
            )
        },
{
    let (c0, r0) = TransactionCreation::start(api_key_id, request, idempotency_key);
    let begun = c0.at(CreateStage::Beginning);
    assert(decision_ending(begun, accounts, inserted, completed) == decision_ending(
        c0,
        accounts,
        inserted,
        completed,
    ));
    let from_begin = if source_refuses(api_key_id, request, accounts) {
        source_reads(api_key_id, request, accounts) + decision_ending(c0, accounts, inserted, completed)
    } else {
        source_reads(api_key_id, request, accounts) + destination_reads(api_key_id, request, accounts)
            + decision_ending(c0, accounts, inserted, completed)
    };
    match idempotency_key {
        None => {
            assert(r0 == StoreRequest::Begin);
            lemma_run_step(c0, r0, by_key, accounts, inserted, completed, 16);
            assert(begun.source_step() == c0.next(store_answer(by_key, accounts, inserted, completed, r0)));
            lemma_source_phase(begun, by_key, accounts, inserted, completed, 15);
            assert(store_run(c0, r0, by_key, accounts, inserted, completed, 16) =~= seq![StoreRequest::Begin]
                + from_begin);
            assert(creation_trace(api_key_id, request, idempotency_key, by_key, accounts, inserted, completed)
                =~= creation_reads(api_key_id, request, idempotency_key, by_key, accounts) + decision_ending(
                c0,
                accounts,
                inserted,
                completed,
            ));
        },
        Some(key) => {
            lemma_run_step(c0, r0, by_key, accounts, inserted, completed, 16);
            let (c1, r1) = c0.next(store_answer(by_key, accounts, inserted, completed, r0));
            if by_key.contains_key(key) {
                lemma_run_finish(c1, r1, by_key, accounts, inserted, completed, 15);
                assert(creation_trace(api_key_id, request, idempotency_key, by_key, accounts, inserted, completed)
                    =~= creation_reads(api_key_id, request, idempotency_key, by_key, accounts) + seq![r1]);
            } else {
                assert(c1 == begun);
                lemma_run_step(c1, r1, by_key, accounts, inserted, completed, 15);
                lemma_source_phase(begun, by_key, accounts, inserted, completed, 14);
                assert(creation_trace(api_key_id, request, idempotency_key, by_key, accounts, inserted, completed)
                    =~= creation_reads(api_key_id, request, idempotency_key, by_key, accounts) + decision_ending(
                    c0,
                    accounts,
                    inserted,
                    completed,
                ));
            }
        },
    }
}

proof fn lemma_reads_only_read(
    api_key_id: u128,
    request: CreateTransaction,
    idempotency_key: Option<u128>,
    by_key: Map<u128, Transaction>,
    accounts: Map<u128, (u128, i64, bool)>,
)
    ensures
        forall|i: int|
            0 <= i < creation_reads(api_key_id, request, idempotency_key, by_key, accounts).len() ==> is_read(
                #[trigger] creation_reads(api_key_id, request, idempotency_key, by_key, accounts)[i],
            ),
{
    let reads = creation_reads(api_key_id, request, idempotency_key, by_key, accounts);
    let key_reads = match idempotency_key {
        Some(key) => seq![StoreRequest::FindByIdempotencyKey(key)],
        None => seq![],
    };
    let sr = source_reads(api_key_id, request, accounts);
    let dr = destination_reads(api_key_id, request, accounts);
    assert(forall|i: int| 0 <= i < key_reads.len() ==> is_read(#[trigger] key_reads[i]));
    assert(forall|i: int| 0 <= i < sr.len() ==> is_read(#[trigger] sr[i]));
    assert(forall|i: int| 0 <= i < dr.len() ==> is_read(#[trigger] dr[i]));
    let with_begin = key_reads + seq![StoreRequest::Begin];
    assert(forall|i: int| 0 <= i < with_begin.len() ==> is_read(#[trigger] with_begin[i]));
    let with_source = with_begin + sr;
    assert(forall|i: int| 0 <= i < with_source.len() ==> is_read(#[trigger] with_source[i]));
    let with_destination = with_source + dr;
    assert(forall|i: int| 0 <= i < with_destination.len() ==> is_read(#[trigger] with_destination[i]));
}

/// The result of a creation: against a store that does not fail, creating a
/// transaction finishes with `creation_outcome`. A repeated idempotency key
/// returns the stored transaction; an inactive or unknown account, a source
/// holding less than the amount, or an account of another business refuses
/// the transaction; otherwise the completed record is returned.
pub proof fn law_creation_result(
    api_key_id: u128,
    request: CreateTransaction,
    idempotency_key: Option<u128>,
    by_key: Map<u128, Transaction>,
    accounts: Map<u128, (u128, i64, bool)>,
    inserted: Transaction,
    completed: Transaction,
)
    requires
        request.names_required_accounts() || creation_outcome(
            api_key_id,
            request,
            idempotency_key,
            by_key,
            accounts,
            completed,
        ) is Err,
    ensures
        creation_trace(api_key_id, request, idempotency_key, by_key, accounts, inserted, completed).last()
            == StoreRequest::Finish(
            creation_outcome(api_key_id, request, idempotency_key, by_key, accounts, completed),
        ),
{
    lemma_creation_trace(api_key_id, request, idempotency_key, by_key, accounts, inserted, completed);
    let c0 = TransactionCreation::start(api_key_id, request, idempotency_key).0;
    let wp = write_phase(c0, inserted, completed);
    assert(wp.last() == StoreRequest::Finish(Ok(completed)));
}

/// A refused creation writes nothing: when the result is an error, every
/// request before the final one only reads (or begins the store
/// transaction, which is then rolled back).
pub proof fn law_refusal_writes_nothing(
    api_key_id: u128,
    request: CreateTransaction,
    idempotency_key: Option<u128>,
    by_key: Map<u128, Transaction>,
    accounts: Map<u128, (u128, i64, bool)>,
    inserted: Transaction,
    completed: Transaction,
)
    requires
        creation_outcome(api_key_id, request, idempotency_key, by_key, accounts, completed) is Err,
    ensures
        forall|i: int|
            0 <= i < creation_trace(api_key_id, request, idempotency_key, by_key, accounts, inserted, completed).len()
                - 1 ==> is_read(
                #[trigger] creation_trace(api_key_id, request, idempotency_key, by_key, accounts, inserted, completed)[i],
            ),
{
    lemma_creation_trace(api_key_id, request, idempotency_key, by_key, accounts, inserted, completed);
    lemma_reads_only_read(api_key_id, request, idempotency_key, by_key, accounts);
    let reads = creation_reads(api_key_id, request, idempotency_key, by_key, accounts);
    let trace = creation_trace(api_key_id, request, idempotency_key, by_key, accounts, inserted, completed);
    assert(trace.len() == reads.len() + 1);
    assert forall|i: int| 0 <= i < trace.len() - 1 implies is_read(#[trigger] trace[i]) by {
        assert(trace[i] == reads[i]);
    }
}

/// A successful creation is atomic and moves exactly the amount: its reads
/// are followed by the insertion of the pending record, the balance updates
/// of its kind (a transfer withdraws from the source and deposits the same
/// amount into the destination), the completion and the commit, in this
/// order, with nothing written before. Every account it touches is active
/// and belongs to the API key, and a source holds at least the amount, so no
/// balance goes below zero.
pub proof fn law_success_is_atomic(
    api_key_id: u128,
    request: CreateTransaction,
    idempotency_key: Option<u128>,
    by_key: Map<u128, Transaction>,
    accounts: Map<u128, (u128, i64, bool)>,
    inserted: Transaction,
    completed: Transaction,
)
    requires
        request.names_required_accounts(),
        creation_outcome(api_key_id, request, idempotency_key, by_key, accounts, completed) is Ok,
    ensures
        creation_trace(api_key_id, request, idempotency_key, by_key, accounts, inserted, completed)
            == creation_reads(api_key_id, request, idempotency_key, by_key, accounts) + write_phase(
            TransactionCreation::start(api_key_id, request, idempotency_key).0,
            inserted,
            completed,
        ),
        forall|i: int|
            0 <= i < creation_reads(api_key_id, request, idempotency_key, by_key, accounts).len() ==> is_read(
                #[trigger] creation_reads(api_key_id, request, idempotency_key, by_key, accounts)[i],
            ),
        request.source_account_id matches Some(s) ==> accounts.contains_key(s) && accounts[s].2
            && accounts[s].0 == api_key_id && accounts[s].1 - request.amount_cents >= 0,
        request.destination_account_id matches Some(d) ==> accounts.contains_key(d) && accounts[d].2
            && accounts[d].0 == api_key_id,
{
    lemma_creation_trace(api_key_id, request, idempotency_key, by_key, accounts, inserted, completed);
    lemma_reads_only_read(api_key_id, request, idempotency_key, by_key, accounts);
}

/// Idempotency: once a creation with a key has succeeded and the store holds
/// its completed record under that key, creating again with the same key
/// (whatever the request) looks the key up, returns that record as a
/// duplicate, and does nothing else.
pub proof fn law_idempotent_replay(
    api_key_id: u128,
    request: CreateTransaction,
    key: u128,
    by_key: Map<u128, Transaction>,
    accounts: Map<u128, (u128, i64, bool)>,
    inserted: Transaction,
    completed: Transaction,
    replay: CreateTransaction,
    later_accounts: Map<u128, (u128, i64, bool)>,
    later_inserted: Transaction,
    later_completed: Transaction,
)
    requires
        creation_outcome(api_key_id, request, Some(key), by_key, accounts, completed) == Ok::<
            Transaction,
            TransactionError,
        >(completed),
    ensures
        creation_trace(
            api_key_id,
            replay,
            Some(key),
            by_key.insert(key, completed),
            later_accounts,
            later_inserted,
            later_completed,
        ) == seq![
            StoreRequest::FindByIdempotencyKey(key),
            StoreRequest::Finish(Err(TransactionError::DuplicateIdempotencyKey(completed))),
        ],
{
    let stored = by_key.insert(key, completed);
    lemma_creation_trace(api_key_id, replay, Some(key), stored, later_accounts, later_inserted, later_completed);
    assert(creation_reads(api_key_id, replay, Some(key), stored, later_accounts) =~= seq![
        StoreRequest::FindByIdempotencyKey(key),
    ]);
}

/// The balance of each account after a store request: a withdrawal lowers
/// the account's balance by the amount, a deposit raises it; other requests
/// change no balance.
pub open spec fn settle(balances: Map<u128, int>, request: StoreRequest) -> Map<u128, int> {
    match request {
        StoreRequest::Withdraw { account_id, amount_cents } => balances.insert(
            account_id,
            balances[account_id] - amount_cents,
        ),
        StoreRequest::Deposit { account_id, amount_cents } => balances.insert(
            account_id,
            balances[account_id] + amount_cents,
        ),
        _ => balances,
    }
}

/// The balances after a sequence of store requests.
pub open spec fn settle_all(balances: Map<u128, int>, requests: Seq<StoreRequest>) -> Map<u128, int>
    decreases requests.len(),
{
    if requests.len() == 0 {
        balances
    } else {
        settle_all(settle(balances, requests[0]), requests.drop_first())
    }
}

/// The balances the store holds, by account.
pub open spec fn balances_of(accounts: Map<u128, (u128, i64, bool)>) -> Map<u128, int> {
    Map::new(|id: u128| accounts.contains_key(id), |id: u128| accounts[id].1 as int)
}

proof fn lemma_settle_concat(balances: Map<u128, int>, first: Seq<StoreRequest>, second: Seq<StoreRequest>)
    ensures
        settle_all(balances, first + second) == settle_all(settle_all(balances, first), second),
    decreases first.len(),
{
    if first.len() == 0 {
        assert(first + second =~= second);
    } else {
        assert((first + second).drop_first() =~= first.drop_first() + second);
        lemma_settle_concat(settle(balances, first[0]), first.drop_first(), second);
    }
}

proof fn lemma_settle_reads(balances: Map<u128, int>, requests: Seq<StoreRequest>)
    requires
        forall|i: int| 0 <= i < requests.len() ==> is_read(#[trigger] requests[i]),
    ensures
        settle_all(balances, requests) == balances,
    decreases requests.len(),
{
    if requests.len() > 0 {
        assert(is_read(requests[0]));
        assert forall|i: int| 0 <= i < requests.drop_first().len() implies is_read(
            #[trigger] requests.drop_first()[i],
        ) by {
            assert(requests.drop_first()[i] == requests[i + 1]);
        }
        lemma_settle_reads(balances, requests.drop_first());
    }
}

/// Balances stay whole: after a successful creation for an amount that is
/// not negative, against a store whose balances are not negative, the balances the store
/// ends with are those it began with, less the amount on the source and plus
/// the amount on the destination; none is negative, and a transfer leaves
/// the sum of its two accounts unchanged.
pub proof fn law_balances_settle(
    api_key_id: u128,
    request: CreateTransaction,
    idempotency_key: Option<u128>,
    by_key: Map<u128, Transaction>,
    accounts: Map<u128, (u128, i64, bool)>,
    inserted: Transaction,
    completed: Transaction,
)
    requires
        request.names_required_accounts(),
        request.amount_cents >= 0,
        creation_outcome(api_key_id, request, idempotency_key, by_key, accounts, completed) is Ok,
        forall|id: u128| #[trigger] accounts.contains_key(id) ==> accounts[id].1 >= 0,
    ensures
        ({
            let before = balances_of(accounts);
            let after = settle_all(
                before,
                creation_trace(api_key_id, request, idempotency_key, by_key, accounts, inserted, completed),
            );
            let s = request.source_account_id->0;
            let d = request.destination_account_id->0;
            let a = request.amount_cents as int;
            &&& after == match request.transaction_type {
                TransactionType::Credit => before.insert(d, before[d] + a),
                TransactionType::Debit => before.insert(s, before[s] - a),
                TransactionType::Transfer => before.insert(s, before[s] - a).insert(
                    d,
                    before.insert(s, before[s] - a)[d] + a,
                ),
            }
            &&& forall|id: u128| #[trigger] after.contains_key(id) ==> after[id] >= 0
            &&& request.transaction_type == TransactionType::Transfer ==> (s != d ==> after[s] + after[d]
                == before[s] + before[d])
        }),
{
    law_success_is_atomic(api_key_id, request, idempotency_key, by_key, accounts, inserted, completed);
    let before = balances_of(accounts);
    let reads = creation_reads(api_key_id, request, idempotency_key, by_key, accounts);
    let c0 = TransactionCreation::start(api_key_id, request, idempotency_key).0;
    let wp = write_phase(c0, inserted, completed);
    lemma_settle_concat(before, reads, wp);
    lemma_settle_reads(before, reads);
    let moves = balance_requests(request);
    let head = seq![StoreRequest::InsertPending(c0.new_record())];
    let tail = seq![
        StoreRequest::MarkCompleted(inserted.id),
        StoreRequest::Commit,
        StoreRequest::Finish(Ok::<Transaction, TransactionError>(completed)),
    ];
    assert(wp == head + moves + tail);
    lemma_settle_concat(before, head + moves, tail);
    lemma_settle_concat(before, head, moves);
    assert(settle_all(before, head) == before) by {
        assert(head.drop_first() =~= Seq::<StoreRequest>::empty());
        reveal_with_fuel(settle_all, 2);
    }
    let moved = settle_all(before, moves);
    assert(settle_all(moved, tail) == moved) by {
        reveal_with_fuel(settle_all, 4);
    }
    reveal_with_fuel(settle_all, 3);
}

/// Balances never go negative: against a store whose balances are not
/// negative, a creation for an amount that is not negative leaves every
/// balance not negative, whatever its result, and a refused creation leaves
/// every balance as it was.
pub proof fn law_balances_never_negative(
    api_key_id: u128,
    request: CreateTransaction,
    idempotency_key: Option<u128>,
    by_key: Map<u128, Transaction>,
    accounts: Map<u128, (u128, i64, bool)>,
    inserted: Transaction,
    completed: Transaction,
)
    requires
        request.amount_cents >= 0,
        request.names_required_accounts() || creation_outcome(
            api_key_id,
            request,
            idempotency_key,
            by_key,
            accounts,
            completed,
        ) is Err,
        forall|id: u128| #[trigger] accounts.contains_key(id) ==> accounts[id].1 >= 0,
    ensures
        ({
            let before = balances_of(accounts);
            let after = settle_all(
                before,
                creation_trace(api_key_id, request, idempotency_key, by_key, accounts, inserted, completed),
            );
            &&& forall|id: u128| #[trigger] after.contains_key(id) ==> after[id] >= 0
            &&& creation_outcome(api_key_id, request, idempotency_key, by_key, accounts, completed) is Err
                ==> after == before
        }),
{
    let outcome = creation_outcome(api_key_id, request, idempotency_key, by_key, accounts, completed);
    let before = balances_of(accounts);
    if outcome is Err {
        lemma_creation_trace(api_key_id, request, idempotency_key, by_key, accounts, inserted, completed);
        lemma_reads_only_read(api_key_id, request, idempotency_key, by_key, accounts);
        law_creation_result(api_key_id, request, idempotency_key, by_key, accounts, inserted, completed);
        let reads = creation_reads(api_key_id, request, idempotency_key, by_key, accounts);
        let trace = creation_trace(api_key_id, request, idempotency_key, by_key, accounts, inserted, completed);
        let last = seq![StoreRequest::Finish(outcome)];
        law_refusal_writes_nothing(api_key_id, request, idempotency_key, by_key, accounts, inserted, completed);
        assert(trace.len() >= 1);
        assert(trace == trace.drop_last() + last);
        assert forall|i: int| 0 <= i < trace.drop_last().len() implies is_read(#[trigger] trace.drop_last()[i]) by {
            assert(trace.drop_last()[i] == trace[i]);
        }
        lemma_settle_concat(before, trace.drop_last(), last);
        lemma_settle_reads(before, trace.drop_last());
        assert(settle_all(before, last) == before) by {
            assert(last.drop_first() =~= Seq::<StoreRequest>::empty());
            reveal_with_fuel(settle_all, 2);
        }
    } else {
        law_balances_settle(api_key_id, request, idempotency_key, by_key, accounts, inserted, completed);
    }
}

/// The record a successful creation stores is the request itself: right
/// after its reads, the creation inserts a pending record carrying the
/// idempotency key, the API key, the kind, the source, the destination, the
/// amount and the metadata of the request, each in its own place; the
/// balance updates that follow withdraw from that source and deposit into
/// that destination.
pub proof fn law_inserted_record_is_the_request(
    api_key_id: u128,
    request: CreateTransaction,
    idempotency_key: Option<u128>,
    by_key: Map<u128, Transaction>,
    accounts: Map<u128, (u128, i64, bool)>,
    inserted: Transaction,
    completed: Transaction,
)
    requires
        request.names_required_accounts(),
        creation_outcome(api_key_id, request, idempotency_key, by_key, accounts, completed) is Ok,
    ensures
        ({
            let trace = creation_trace(api_key_id, request, idempotency_key, by_key, accounts, inserted, completed);
            let at = creation_reads(api_key_id, request, idempotency_key, by_key, accounts).len() as int;
            &&& 0 <= at < trace.len()
            &&& trace[at] matches StoreRequest::InsertPending(record) && record.idempotency_key == idempotency_key
                && record.api_key_id == api_key_id && record.transaction_type == request.transaction_type
                && record.source_account_id == request.source_account_id && record.destination_account_id
                == request.destination_account_id && record.amount_cents == request.amount_cents && record.status
                == TransactionStatus::Pending && record.metadata == request.metadata
            &&& request.transaction_type != TransactionType::Credit ==> trace[at + 1] == StoreRequest::Withdraw {
                account_id: request.source_account_id->0,
                amount_cents: request.amount_cents,
            }
            &&& request.transaction_type == TransactionType::Credit ==> trace[at + 1] == StoreRequest::Deposit {
                account_id: request.destination_account_id->0,
                amount_cents: request.amount_cents,
            }
            &&& request.transaction_type == TransactionType::Transfer ==> trace[at + 2] == StoreRequest::Deposit {
                account_id: request.destination_account_id->0,
                amount_cents: request.amount_cents,
            }
        }),
{
    law_success_is_atomic(api_key_id, request, idempotency_key, by_key, accounts, inserted, completed);
    let reads = creation_reads(api_key_id, request, idempotency_key, by_key, accounts);
    let c0 = TransactionCreation::start(api_key_id, request, idempotency_key).0;
    let wp = write_phase(c0, inserted, completed);
    let trace = creation_trace(api_key_id, request, idempotency_key, by_key, accounts, inserted, completed);
    assert(trace[reads.len() as int] == wp[0]);
    assert(trace[reads.len() as int + 1] == wp[1]);
    if request.transaction_type == TransactionType::Transfer {
        assert(trace[reads.len() as int + 2] == wp[2]);
    }
}

} // verus!
