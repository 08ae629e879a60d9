//! The data carried between the pipeline stages and to the upload
//! collaborator: the canonical transaction entity and the request/response
//! shapes of the surrounding services.

use vstd::prelude::*;

verus! {

/// Mathematical value of a [`TransactionTransport`]: the fields as sequences
/// of characters and plain integers.
pub struct TransactionView {
    pub statement_id: Option<i32>,
    pub description: Seq<char>,
    pub amount: i32,
    pub transaction_date: Seq<char>,
    pub refnum: Seq<char>,
    pub transaction_type_lookup_code: i32,
}

/// The canonical transaction entity: description, amount in minor currency
/// units, canonical date string, reference number, and a debit/credit
/// classification code. `statement_id` stays unset until a statement is
/// created upstream. The amount's sign and the classification code are
/// derived independently from the source record and are not cross-validated.
#[derive(Debug, Clone)]
pub struct TransactionTransport {
    pub statement_id: Option<i32>,
    pub description: String,
    pub amount: i32,
    pub transaction_date: String,
    pub refnum: String,
    pub transaction_type_lookup_code: i32,
}

impl View for TransactionTransport {
    type V = TransactionView;

    open spec fn view(&self) -> TransactionView {
        TransactionView {
            statement_id: self.statement_id,
            description: self.description@,
            amount: self.amount,
            transaction_date: self.transaction_date@,
            refnum: self.refnum@,
            transaction_type_lookup_code: self.transaction_type_lookup_code,
        }
    }
}

impl DeepView for TransactionTransport {
    type V = TransactionView;

    open spec fn deep_view(&self) -> TransactionView {
        self.view()
    }
}

/// A transaction as the remote service returns it.
#[derive(Debug, Clone)]
pub struct TransactionResponse {
    pub transaction_id: i32,
    pub statement_id: i32,
    pub description: String,
    pub amount: i32,
    pub transaction_date: String,
}

/// A statement creation request for the remote service.
#[derive(Debug, Clone)]
pub struct StatementTransport {
    pub banking_user_id: i32,
    pub institution_id: i32,
    pub period_start: String,
    pub period_end: String,
}

/// A statement as the remote service returns it.
#[derive(Debug, Clone)]
pub struct StatementResponse {
    pub statement_id: i32,
    pub banking_user_id: i32,
    pub institution_id: i32,
    pub period_start: String,
    pub period_end: String,
    pub date_added: String,
}

/// Login credentials collected from the user.
#[derive(Debug, Clone)]
pub struct LoginRequest {
    pub email: String,
    pub password: String,
}

/// A successful login: the bearer token and the user it belongs to.
#[derive(Debug, Clone)]
pub struct LoginResponse {
    pub token: String,
    pub user: UserResponse,
}

/// The user record inside a [`LoginResponse`].
#[derive(Debug, Clone)]
pub struct UserResponse {
    pub id: i32,
    pub email: String,
    pub username: String,
}

/// The credentials every authenticated call carries.
#[derive(Debug, Clone)]
pub struct AuthorizationData {
    pub auth_token: String,
    pub api_key: String,
}

} // verus!
