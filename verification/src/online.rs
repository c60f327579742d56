use vstd::prelude::*;

verus! {

/// Decimal digit character for a value below ten.
pub open spec fn spec_digit_char(d: int) -> char {
    if d == 0 { '0' }
    else if d == 1 { '1' }
    else if d == 2 { '2' }
    else if d == 3 { '3' }
    else if d == 4 { '4' }
    else if d == 5 { '5' }
    else if d == 6 { '6' }
    else if d == 7 { '7' }
    else if d == 8 { '8' }
    else { '9' }
}

/// Decimal rendering of a natural number, most significant digit first.
pub open spec fn spec_dec(n: int) -> Seq<char>
    decreases n,
{
    if n < 10 {
        seq![spec_digit_char(n)]
    } else {
        spec_dec(n / 10).push(spec_digit_char(n % 10))
    }
}

/// Relies on String::push: appends exactly the given character.
#[verifier::external_body]
pub(crate) fn push_char(s: &mut String, c: char)
    ensures
        final(s)@ == old(s)@.push(c),
{
    s.push(c)
}

fn digit_char(d: u64) -> (c: char)
    requires
        d < 10,
    ensures
        c == spec_digit_char(d as int),
{
    if d == 0 { '0' }
    else if d == 1 { '1' }
    else if d == 2 { '2' }
    else if d == 3 { '3' }
    else if d == 4 { '4' }
    else if d == 5 { '5' }
    else if d == 6 { '6' }
    else if d == 7 { '7' }
    else if d == 8 { '8' }
    else { '9' }
}

/// Renders a number in decimal, as the store renders identities and
/// timestamps when handing a record back.
pub fn dec_str(n: u64) -> (s: String)
    ensures
        s@ == spec_dec(n as int),
    decreases n,
{
    if n < 10 {
        let mut s = String::new();
        push_char(&mut s, digit_char(n));
        proof {
            assert(s@ =~= spec_dec(n as int));
        }
        s
    } else {
        let mut s = dec_str(n / 10);
        push_char(&mut s, digit_char(n % 10));
        s
    }
}

/// The persisted online-state document as the store keeps it: one per
/// (device identifier, credential) pair. The store-assigned identity and the
/// two timestamps are plain numbers here; timestamps count milliseconds.
#[allow(non_snake_case)]
pub struct OnlineDocument {
    pub id: u64,
    pub uuid: String,
    pub apiToken: String,
    pub createdAt: u64,
    pub modifiedAt: u64,
    pub online: bool,
}

/// The mathematical model of a persisted document.
pub ghost struct DocModel {
    pub id: u64,
    pub uuid: Seq<char>,
    pub api_token: Seq<char>,
    pub created_at: u64,
    pub modified_at: u64,
    pub online: bool,
}

impl View for OnlineDocument {
    type V = DocModel;

    open spec fn view(&self) -> DocModel {
        DocModel {
            id: self.id,
            uuid: self.uuid@,
            api_token: self.apiToken@,
            created_at: self.createdAt,
            modified_at: self.modifiedAt,
            online: self.online,
        }
    }
}

/// The record snapshot handed back to callers after a write: every field
/// rendered as text, as the external representation has it.
#[allow(non_snake_case)]
pub struct Online {
    pub _id: String,
    pub uuid: String,
    pub apiToken: String,
    pub createdAt: String,
    pub modifiedAt: String,
    pub online: bool,
}

/// How a returned snapshot relates to the document it was rendered from.
pub open spec fn renders_doc(r: Online, d: DocModel) -> bool {
    &&& r._id@ == spec_dec(d.id as int)
    &&& r.uuid@ == d.uuid
    &&& r.apiToken@ == d.api_token
    &&& r.createdAt@ == spec_dec(d.created_at as int)
    &&& r.modifiedAt@ == spec_dec(d.modified_at as int)
    &&& r.online == d.online
}

/// Renders a stored document into the snapshot shape returned to callers.
pub fn document_to_json(online_doc: &OnlineDocument) -> (r: Online)
    ensures
        renders_doc(r, online_doc@),
{
    Online {
        _id: dec_str(online_doc.id),
        uuid: online_doc.uuid.clone(),
        apiToken: online_doc.apiToken.clone(),
        createdAt: dec_str(online_doc.createdAt),
        modifiedAt: dec_str(online_doc.modifiedAt),
        online: online_doc.online,
    }
}

} // verus!
