//! A transaction of the chain as the remappers read it: its version, block
//! and time, the events of a user transaction and the resources it wrote.
use crate::models::Event;
use crate::utils::Timestamp;
use vstd::prelude::*;

verus! {

/// A transaction.
pub struct Transaction {
    pub version: u64,
    pub block_height: u64,
    pub timestamp: Option<Timestamp>,
    pub txn_data: Option<TxnData>,
    pub info: Option<TransactionInfo>,
}

/// What kind of transaction it is; only user transactions carry events the
/// indexer reads.
pub enum TxnData {
    User(UserTransaction),
    Other,
}

/// A user transaction: its request, and the events it emitted, in order.
pub struct UserTransaction {
    pub request: Option<UserTransactionRequest>,
    pub events: Vec<Event>,
}

/// The request of a user transaction: the entry function it calls
/// (`address::module::function`), if it calls one, and its payload.
pub struct UserTransactionRequest {
    pub entry_function_id_str: Option<String>,
    pub payload: Option<TransactionPayload>,
}

/// The payload of a request.
pub struct TransactionPayload {
    pub payload: Option<PayloadType>,
}

/// The kinds of payload whose type arguments are read.
pub enum PayloadType {
    EntryFunctionPayload(EntryFunctionPayload),
    MultisigPayload(MultisigPayload),
    Other,
}

/// A call of an entry function, with its type arguments.
pub struct EntryFunctionPayload {
    pub type_arguments: Vec<MoveType>,
}

/// A multisig request, with the transaction it carries, if any.
pub struct MultisigPayload {
    pub transaction_payload: Option<MultisigTransactionPayload>,
}

/// The transaction that a multisig request carries.
pub struct MultisigTransactionPayload {
    pub payload: Option<EntryFunctionPayload>,
}

/// A Move struct type: address, module, struct name and type parameters,
/// each parameter by its JSON text.
pub struct MoveStructTag {
    pub address: String,
    pub module: String,
    pub name: String,
    pub generic_type_params: Vec<String>,
}

/// The content of a Move type; only struct types are read.
pub enum MoveTypeContent {
    Struct(MoveStructTag),
    Other,
}

/// A Move type.
pub struct MoveType {
    pub content: Option<MoveTypeContent>,
}

/// A struct type by content.
pub struct MoveStructTagView {
    pub address: Seq<char>,
    pub module: Seq<char>,
    pub name: Seq<char>,
    pub generic_type_params: Seq<Seq<char>>,
}

/// The content of a Move type, by content.
pub enum MoveTypeContentView {
    Struct(MoveStructTagView),
    Other,
}

/// The content of a struct type.
pub open spec fn struct_tag_view(t: MoveStructTag) -> MoveStructTagView {
    MoveStructTagView {
        address: t.address@,
        module: t.module@,
        name: t.name@,
        generic_type_params: t.generic_type_params@.map_values(|p: String| p@),
    }
}

impl View for MoveType {
    type V = Option<MoveTypeContentView>;

    open spec fn view(&self) -> Option<MoveTypeContentView> {
        match self.content {
            None => None,
            Some(MoveTypeContent::Other) => Some(MoveTypeContentView::Other),
            Some(MoveTypeContent::Struct(t)) => Some(MoveTypeContentView::Struct(struct_tag_view(t))),
        }
    }
}

/// The contents of a list of Move types.
pub open spec fn move_types_view(v: Seq<MoveType>) -> Seq<Option<MoveTypeContentView>> {
    v.map_values(|t: MoveType| t@)
}

impl MoveType {
    /// A copy of the type.
    pub fn copy(&self) -> (r: MoveType)
        ensures
            r@ == self@,
    {
        match &self.content {
            None => MoveType { content: None },
            Some(MoveTypeContent::Other) => MoveType { content: Some(MoveTypeContent::Other) },
            Some(MoveTypeContent::Struct(t)) => {
                let params = copy_texts(&t.generic_type_params);
                let r = MoveType {
                    content: Some(
                        MoveTypeContent::Struct(
                            MoveStructTag {
                                address: t.address.clone(),
                                module: t.module.clone(),
                                name: t.name.clone(),
                                generic_type_params: params,
                            },
                        ),
                    ),
                };
                assert(params@.map_values(|p: String| p@) =~= t.generic_type_params@.map_values(|p: String| p@));
                r
            },
        }
    }
}

/// A copy of a list of texts.
pub fn copy_texts(v: &Vec<String>) -> (r: Vec<String>)
    ensures
        r@ == v@,
{
    let mut r: Vec<String> = Vec::new();
    let mut i: usize = 0;
    while i < v.len()
        invariant
            i <= v@.len(),
            r@ == v@.take(i as int),
        decreases v@.len() - i,
    {
        r.push(v[i].clone());
        assert(r@ =~= v@.take(i + 1));
        i = i + 1;
    }
    assert(v@.take(i as int) =~= v@);
    r
}

/// A copy of a list of Move types.
pub fn copy_move_types(v: &Vec<MoveType>) -> (r: Vec<MoveType>)
    ensures
        move_types_view(r@) == move_types_view(v@),
{
    let mut r: Vec<MoveType> = Vec::new();
    let mut i: usize = 0;
    while i < v.len()
        invariant
            i <= v@.len(),
            move_types_view(r@) == move_types_view(v@.take(i as int)),
        decreases v@.len() - i,
    {
        let c = v[i].copy();
        let ghost before = r@;
        r.push(c);
        assert(move_types_view(r@) =~= move_types_view(before).push(c@));
        assert(move_types_view(v@.take(i + 1)) =~= move_types_view(v@.take(i as int)).push(v@[i as int]@));
        i = i + 1;
    }
    assert(v@.take(i as int) =~= v@);
    r
}

/// The effects of a transaction on the state.
pub struct TransactionInfo {
    pub changes: Vec<WriteSetChange>,
}

/// One change of the write set.
pub struct WriteSetChange {
    pub change: Option<Change>,
}

/// The kind of a write set change; only written resources are read.
pub enum Change {
    WriteResource(WriteResource),
    Other,
}

/// A resource written at an address: its Move type and its JSON data.
pub struct WriteResource {
    pub address: String,
    pub type_str: String,
    pub data: String,
}

} // verus!
