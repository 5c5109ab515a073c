use vstd::prelude::*;

verus! {

/// A key/value pair that the contract emits with a successful call.
#[derive(Debug)]
pub struct Attribute {
    pub key: String,
    pub value: String,
}

/// An order to the bank module: send `amount` of `denom` to `to_address`.
#[derive(Debug)]
pub struct BankSend {
    pub to_address: String,
    pub amount: u128,
    pub denom: String,
}

/// The mathematical value of a [`BankSend`].
pub struct BankSendView {
    pub to_address: Seq<char>,
    pub amount: u128,
    pub denom: Seq<char>,
}

impl View for BankSend {
    type V = BankSendView;

    open spec fn view(&self) -> BankSendView {
        BankSendView { to_address: self.to_address@, amount: self.amount, denom: self.denom@ }
    }
}

/// What a successful call hands back to the chain.
#[derive(Debug)]
pub struct Response {
    pub messages: Vec<BankSend>,
    pub attributes: Vec<Attribute>,
}

/// The mathematical value of a [`Response`].
pub struct ResponseView {
    pub messages: Seq<BankSendView>,
    pub attributes: Seq<(Seq<char>, Seq<char>)>,
}

impl View for Response {
    type V = ResponseView;

    open spec fn view(&self) -> ResponseView {
        ResponseView {
            messages: Seq::new(self.messages@.len(), |i: int| self.messages@[i]@),
            attributes: Seq::new(
                self.attributes@.len(),
                |i: int| (self.attributes@[i].key@, self.attributes@[i].value@),
            ),
        }
    }
}

/// A response with neither messages nor attributes.
pub open spec fn empty_response() -> ResponseView {
    ResponseView { messages: Seq::empty(), attributes: Seq::empty() }
}

impl Response {
    /// A response with neither messages nor attributes.
    pub fn new() -> (r: Response)
        ensures
            r@ == empty_response(),
    {
        let r = Response { messages: Vec::new(), attributes: Vec::new() };
        assert(r@.messages =~= Seq::<BankSendView>::empty());
        assert(r@.attributes =~= Seq::<(Seq<char>, Seq<char>)>::empty());
        r
    }

    /// This response with one more attribute at the end.
    pub fn add_attribute(self, key: &str, value: String) -> (r: Response)
        ensures
            r@ == (ResponseView {
                messages: self@.messages,
                attributes: self@.attributes.push((key@, value@)),
            }),
    {
        let mut r = self;
        r.attributes.push(Attribute { key: String::from_str(key), value });
        assert(r@.attributes =~= self@.attributes.push((key@, value@)));
        assert(r@.messages =~= self@.messages);
        r
    }

    /// This response with one more bank message at the end.
    pub fn add_message(self, msg: BankSend) -> (r: Response)
        ensures
            r@ == (ResponseView { messages: self@.messages.push(msg@), attributes: self@.attributes }),
    {
        let ghost m = msg@;
        let mut r = self;
        r.messages.push(msg);
        assert(r@.messages =~= self@.messages.push(m));
        assert(r@.attributes =~= self@.attributes);
        r
    }
}

} // verus!
