//! Address validation by Retry: the tokens that the server hands out, and
//! what an Initial packet's token says when it comes back.
//!
//! A token is a fixed prefix followed by the destination connection ID of the
//! client's first Initial. It is not authenticated.

use crate::packet::{ConnectionId, PacketHdr, PacketType, PacketTypeView};
use vstd::prelude::*;

verus! {

/// What becomes of an Initial packet.
#[derive(Clone, Debug, PartialEq, Eq)]
pub enum InitialResult {
    Accept,
    Drop,
    Retry(Vec<u8>),
}

/// What a packet's token says about the client's address.
#[derive(Clone, Debug, PartialEq, Eq)]
pub enum RetryTokenResult {
    /// No token, and none is asked for.
    Pass,
    /// A token of this server; it holds the original destination connection ID.
    Valid(ConnectionId),
    /// No token, and one is asked for: answer with a Retry.
    Validate,
    /// Not an Initial, or a token that this server did not make.
    Invalid,
}

/// The mathematical value of a `RetryTokenResult`.
pub ghost enum RetryTokenResultView {
    Pass,
    Valid(Seq<u8>),
    Validate,
    Invalid,
}

impl View for RetryTokenResult {
    type V = RetryTokenResultView;

    open spec fn view(&self) -> RetryTokenResultView {
        match self {
            RetryTokenResult::Pass => RetryTokenResultView::Pass,
            RetryTokenResult::Valid(cid) => RetryTokenResultView::Valid(cid@),
            RetryTokenResult::Validate => RetryTokenResultView::Validate,
            RetryTokenResult::Invalid => RetryTokenResultView::Invalid,
        }
    }
}

/// The prefix of every token.
pub open spec fn fixed_token() -> Seq<u8> {
    seq![1u8, 2u8, 3u8]
}

/// The token for a client whose first Initial was sent to `odcid`.
pub open spec fn token_for(odcid: Seq<u8>) -> Seq<u8> {
    fixed_token() + odcid
}

/// What a packet of type `tipe` says about the client's address, for a server
/// that asks for address validation or not (`require_retry`).
pub open spec fn token_result(require_retry: bool, tipe: PacketTypeView) -> RetryTokenResultView {
    match tipe {
        PacketTypeView::Initial(token) => {
            if token.len() == 0 {
                if require_retry {
                    RetryTokenResultView::Validate
                } else {
                    RetryTokenResultView::Pass
                }
            } else if fixed_token().is_prefix_of(token) {
                RetryTokenResultView::Valid(token.skip(3))
            } else {
                RetryTokenResultView::Invalid
            }
        },
        _ => RetryTokenResultView::Invalid,
    }
}

/// The Retry policy of a server.
#[derive(Debug)]
pub struct RetryToken {
    require_retry: bool,
}

impl Default for RetryToken {
    fn default() -> (r: RetryToken)
        ensures
            !r.required(),
    {
        RetryToken { require_retry: false }
    }
}

impl RetryToken {
    /// Whether an Initial without a token is answered with a Retry.
    pub closed spec fn required(&self) -> bool {
        self.require_retry
    }

    /// A policy that asks for no address validation.
    pub fn new() -> (r: RetryToken)
        ensures
            !r.required(),
    {
        RetryToken { require_retry: false }
    }

    pub fn is_retry_required(&self) -> (r: bool)
        ensures
            r == self.required(),
    {
        self.require_retry
    }

    /// The token to send to a client whose Initial had the destination
    /// connection ID `dcid`.
    pub fn generate_token(&mut self, dcid: &ConnectionId) -> (token: Vec<u8>)
        ensures
            token@ == token_for(dcid@),
            *final(self) == *old(self),
    {
        let mut token: Vec<u8> = Vec::new();
        token.push(1u8);
        token.push(2u8);
        token.push(3u8);
        assert(token@ =~= fixed_token());
        let bytes = dcid.as_bytes();
        let mut i: usize = 0;
        while i < bytes.len()
            invariant
                0 <= i <= bytes@.len(),
                token@ == fixed_token() + bytes@.subrange(0, i as int),
            decreases bytes@.len() - i,
        {
            token.push(bytes[i]);
            assert(fixed_token() + bytes@.subrange(0, i as int + 1) =~= (fixed_token()
                + bytes@.subrange(0, i as int)).push(bytes@[i as int]));
            i += 1;
        }
        assert(bytes@.subrange(0, bytes@.len() as int) =~= bytes@);
        token
    }

    pub fn set_retry_required(&mut self, retry: bool)
        ensures
            final(self).required() == retry,
    {
        self.require_retry = retry;
    }

    /// Classifies a packet by its type and token.
    pub fn validate(&self, hdr: &PacketHdr) -> (r: RetryTokenResult)
        ensures
            r@ == token_result(self.required(), hdr@.tipe),
    {
        match &hdr.tipe {
            PacketType::Initial(token) => {
                if token.len() == 0 {
                    if self.require_retry {
                        RetryTokenResult::Validate
                    } else {
                        RetryTokenResult::Pass
                    }
                } else if token.len() >= 3 && token[0] == 1u8 && token[1] == 2u8 && token[2]
                    == 3u8 {
                    assert(fixed_token().is_prefix_of(token@)) by {
                        assert(token@.subrange(0, 3) =~= fixed_token());
                    }
                    let rest = vstd::slice::slice_subrange(token.as_slice(), 3, token.len());
                    let cid = ConnectionId::from_bytes(rest);
                    assert(cid@ =~= token@.skip(3));
                    RetryTokenResult::Valid(cid)
                } else {
                    assert(!fixed_token().is_prefix_of(token@)) by {
                        if fixed_token().is_prefix_of(token@) {
                            assert(token@.subrange(0, 3) == fixed_token());
                            assert(token@[0] == token@.subrange(0, 3)[0]);
                            assert(token@[1] == token@.subrange(0, 3)[1]);
                            assert(token@[2] == token@.subrange(0, 3)[2]);
                        }
                    }
                    RetryTokenResult::Invalid
                }
            },
            _ => RetryTokenResult::Invalid,
        }
    }
}

/// A token made for `odcid` is accepted whatever the policy, and gives
/// `odcid` back.
pub proof fn lemma_token_round_trip(require_retry: bool, odcid: Seq<u8>)
    ensures
        token_result(require_retry, PacketTypeView::Initial(token_for(odcid)))
            == RetryTokenResultView::Valid(odcid),
{
    let token = token_for(odcid);
    assert(token.len() == 3 + odcid.len());
    assert(token.subrange(0, 3) =~= fixed_token());
    assert(token.skip(3) =~= odcid);
}

/// A server that asks for address validation answers an Initial without a
/// token with a Retry; one that does not lets it pass.
pub proof fn lemma_empty_token(require_retry: bool)
    ensures
        token_result(require_retry, PacketTypeView::Initial(Seq::empty())) == if require_retry {
            RetryTokenResultView::Validate
        } else {
            RetryTokenResultView::Pass
        },
{
}

/// Only a token that begins with the fixed prefix is taken for one of this
/// server's, and only an Initial can carry one.
pub proof fn lemma_valid_only_with_prefix(require_retry: bool, tipe: PacketTypeView, cid: Seq<u8>)
    requires
        token_result(require_retry, tipe) == RetryTokenResultView::Valid(cid),
    ensures
        tipe == PacketTypeView::Initial(token_for(cid)),
{
    match tipe {
        PacketTypeView::Initial(token) => {
            assert(token.subrange(0, 3) == fixed_token());
            assert(token =~= token_for(token.skip(3)));
        },
        _ => {},
    }
}

} // verus!
