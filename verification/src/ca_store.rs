//! Loading the trusted certificates of a system that keeps them in a store of its own.
use crate::error::Error;
use vstd::prelude::*;

verus! {

/// A call to the system, or to the TLS stack.
#[derive(Clone, Copy, Debug, PartialEq, Eq, Structural)]
pub enum StoreCall {
    /// Opens the store of the trusted certificates.
    OpenSystemStore,

    /// Gets the store of the TLS context.
    GetContextStore,

    /// Gets the first certificate of the system store.
    FirstCertificate,

    /// Gets the next certificate of the system store.
    NextCertificate,

    /// Decodes the certificate.
    Decode,

    /// Adds the decoded certificate to the store of the TLS context.
    AddDecoded,

    /// Frees the decoded certificate.
    FreeDecoded,

    /// Frees the certificate of the system store.
    FreeCertificate,

    /// Closes the system store.
    CloseSystemStore,
}

/// What the last call was.
#[derive(Clone, Copy, Debug, PartialEq, Eq, Structural)]
pub enum Loading {
    Opening,
    GettingStore,
    Enumerating,
    Decoding,
    Adding,
    FreeingDecoded,
    FreeingCertificate,
    Closing,
}

/// The next thing to do.
#[derive(Clone, Copy, Debug, PartialEq, Eq)]
pub enum StoreStep {
    /// A call goes out. Whether it gives something resumes the loading.
    Call(StoreCall, Loading),

    /// The loading returns.
    Return(Result<(), Error>),
}

impl Loading {
    /// The step after the last call, which has given something or has not.
    pub open spec fn after(self, given: bool) -> StoreStep {
        match self {
            Loading::Opening => if given {
                StoreStep::Call(StoreCall::GetContextStore, Loading::GettingStore)
            } else {
                StoreStep::Return(Err(Error::TlsFail))
            },
            Loading::GettingStore => if given {
                StoreStep::Call(StoreCall::FirstCertificate, Loading::Enumerating)
            } else {
                StoreStep::Return(Err(Error::TlsFail))
            },
            Loading::Enumerating => if given {
                StoreStep::Call(StoreCall::Decode, Loading::Decoding)
            } else {
                StoreStep::Call(StoreCall::FreeCertificate, Loading::FreeingCertificate)
            },
            Loading::Decoding => if given {
                StoreStep::Call(StoreCall::AddDecoded, Loading::Adding)
            } else {
                StoreStep::Call(StoreCall::FreeDecoded, Loading::FreeingDecoded)
            },
            Loading::Adding => StoreStep::Call(StoreCall::FreeDecoded, Loading::FreeingDecoded),
            Loading::FreeingDecoded => StoreStep::Call(
                StoreCall::NextCertificate,
                Loading::Enumerating,
            ),
            Loading::FreeingCertificate => StoreStep::Call(
                StoreCall::CloseSystemStore,
                Loading::Closing,
            ),
            Loading::Closing => StoreStep::Return(Ok(())),
        }
    }

    /// Resumes the loading after the last call, which has given something or has not.
    pub fn resume(self, given: bool) -> (step: StoreStep)
        ensures
            step == self.after(given),
    {
        match self {
            Loading::Opening => if given {
                StoreStep::Call(StoreCall::GetContextStore, Loading::GettingStore)
            } else {
                StoreStep::Return(Err(Error::TlsFail))
            },
            Loading::GettingStore => if given {
                StoreStep::Call(StoreCall::FirstCertificate, Loading::Enumerating)
            } else {
                StoreStep::Return(Err(Error::TlsFail))
            },
            Loading::Enumerating => if given {
                StoreStep::Call(StoreCall::Decode, Loading::Decoding)
            } else {
                StoreStep::Call(StoreCall::FreeCertificate, Loading::FreeingCertificate)
            },
            Loading::Decoding => if given {
                StoreStep::Call(StoreCall::AddDecoded, Loading::Adding)
            } else {
                StoreStep::Call(StoreCall::FreeDecoded, Loading::FreeingDecoded)
            },
            Loading::Adding => StoreStep::Call(StoreCall::FreeDecoded, Loading::FreeingDecoded),
            Loading::FreeingDecoded => StoreStep::Call(
                StoreCall::NextCertificate,
                Loading::Enumerating,
            ),
            Loading::FreeingCertificate => StoreStep::Call(
                StoreCall::CloseSystemStore,
                Loading::Closing,
            ),
            Loading::Closing => StoreStep::Return(Ok(())),
        }
    }
}

/// Loads the trusted certificates of the system into the TLS context. Those that cannot be decoded
/// are passed over.
pub fn load_ca_certs() -> (step: StoreStep)
    ensures
        step == StoreStep::Call(StoreCall::OpenSystemStore, Loading::Opening),
{
    StoreStep::Call(StoreCall::OpenSystemStore, Loading::Opening)
}

/// The calls that go out from `step` on, when they are answered in turn by `answers`.
pub open spec fn calls(step: StoreStep, answers: Seq<bool>) -> Seq<StoreCall>
    decreases answers.len(),
{
    match step {
        StoreStep::Call(call, loading) => if answers.len() == 0 {
            seq![call]
        } else {
            seq![call] + calls(loading.after(answers[0]), answers.drop_first())
        },
        StoreStep::Return(_) => Seq::empty(),
    }
}

/// What is returned from `step` on, when the calls are answered in turn by `answers`.
pub open spec fn result(step: StoreStep, answers: Seq<bool>) -> Option<Result<(), Error>>
    decreases answers.len(),
{
    match step {
        StoreStep::Call(_, loading) => if answers.len() == 0 {
            None
        } else {
            result(loading.after(answers[0]), answers.drop_first())
        },
        StoreStep::Return(result) => Some(result),
    }
}

/// The answers of a system whose remaining certificates can or cannot be decoded, as `decodable`
/// says of each.
pub open spec fn remaining_answers(decodable: Seq<bool>) -> Seq<bool>
    decreases decodable.len(),
{
    if decodable.len() == 0 {
        seq![false, true, true]
    } else if decodable[0] {
        seq![true, true, true, true] + remaining_answers(decodable.drop_first())
    } else {
        seq![true, false, true] + remaining_answers(decodable.drop_first())
    }
}

/// What is done with the remaining certificates: each is decoded, added if that is possible, and
/// freed; then the store is closed.
pub open spec fn remaining_calls(decodable: Seq<bool>) -> Seq<StoreCall>
    decreases decodable.len(),
{
    if decodable.len() == 0 {
        seq![StoreCall::FreeCertificate, StoreCall::CloseSystemStore]
    } else if decodable[0] {
        seq![
            StoreCall::Decode,
            StoreCall::AddDecoded,
            StoreCall::FreeDecoded,
            StoreCall::NextCertificate,
        ] + remaining_calls(decodable.drop_first())
    } else {
        seq![StoreCall::Decode, StoreCall::FreeDecoded, StoreCall::NextCertificate]
            + remaining_calls(decodable.drop_first())
    }
}

/// If both stores are there, every certificate that can be decoded is added, the others are passed
/// over, everything that was decoded is freed, and the loading succeeds.
pub proof fn loads_every_decodable_certificate(decodable: Seq<bool>)
    ensures
        ({
            let start = StoreStep::Call(StoreCall::OpenSystemStore, Loading::Opening);
            let answers = seq![true, true] + remaining_answers(decodable);
            &&& result(start, answers) == Some(Ok::<(), Error>(()))
            &&& calls(start, answers) == seq![
                StoreCall::OpenSystemStore,
                StoreCall::GetContextStore,
                StoreCall::FirstCertificate,
            ] + remaining_calls(decodable)
        }),
{
    let start = StoreStep::Call(StoreCall::OpenSystemStore, Loading::Opening);
    let answers = seq![true, true] + remaining_answers(decodable);
    let first = StoreStep::Call(StoreCall::FirstCertificate, Loading::Enumerating);
    lemma_remaining(StoreCall::FirstCertificate, decodable);
    assert(answers.drop_first() =~= seq![true] + remaining_answers(decodable));
    assert(answers.drop_first().drop_first() =~= remaining_answers(decodable));
    let store = StoreStep::Call(StoreCall::GetContextStore, Loading::GettingStore);
    assert(calls(store, answers.drop_first()) =~= seq![StoreCall::GetContextStore] + calls(
        first,
        remaining_answers(decodable),
    ));
    assert(result(store, answers.drop_first()) == result(first, remaining_answers(decodable)));
    assert(calls(start, answers) =~= seq![
        StoreCall::OpenSystemStore,
        StoreCall::GetContextStore,
        StoreCall::FirstCertificate,
    ] + remaining_calls(decodable));
}

/// If one of the stores is not there, the loading fails at once.
pub proof fn needs_both_stores(answers: Seq<bool>)
    requires
        answers.len() > 1,
        !answers[0] || !answers[1],
    ensures
        ({
            let start = StoreStep::Call(StoreCall::OpenSystemStore, Loading::Opening);
            &&& result(start, answers) == Some(Err::<(), Error>(Error::TlsFail))
            &&& calls(start, answers) == if answers[0] {
                seq![StoreCall::OpenSystemStore, StoreCall::GetContextStore]
            } else {
                seq![StoreCall::OpenSystemStore]
            }
        }),
{
    reveal_with_fuel(calls, 3);
    reveal_with_fuel(result, 3);
    let start = StoreStep::Call(StoreCall::OpenSystemStore, Loading::Opening);
    if answers[0] {
        assert(calls(start, answers) =~= seq![
            StoreCall::OpenSystemStore,
            StoreCall::GetContextStore,
        ]);
    } else {
        assert(calls(start, answers) =~= seq![StoreCall::OpenSystemStore]);
    }
}

/// What is done after a certificate has been added, or something has been freed or closed, does not
/// depend on what that gave.
pub proof fn goes_on_regardless(loading: Loading, given: bool, other: bool)
    requires
        loading is Adding || loading is FreeingDecoded || loading is FreeingCertificate
            || loading is Closing,
    ensures
        loading.after(given) == loading.after(other),
{
}

/// From the moment the next certificate is asked for.
#[verifier::rlimit(20)]
proof fn lemma_remaining(call: StoreCall, decodable: Seq<bool>)
    ensures
        result(StoreStep::Call(call, Loading::Enumerating), remaining_answers(decodable)) == Some(
            Ok::<(), Error>(()),
        ),
        calls(StoreStep::Call(call, Loading::Enumerating), remaining_answers(decodable)) == seq![
            call,
        ] + remaining_calls(decodable),
    decreases decodable.len(),
{
    reveal_with_fuel(calls, 5);
    reveal_with_fuel(result, 5);
    let answers = remaining_answers(decodable);
    let start = StoreStep::Call(call, Loading::Enumerating);
    if decodable.len() == 0 {
        assert(answers.drop_first() =~= seq![true, true]);
        assert(answers.drop_first().drop_first() =~= seq![true]);
        assert(answers.drop_first().drop_first().drop_first() =~= Seq::<bool>::empty());
        assert(calls(start, answers) =~= seq![call] + remaining_calls(decodable));
    } else {
        let rest = remaining_answers(decodable.drop_first());
        let next = StoreStep::Call(StoreCall::NextCertificate, Loading::Enumerating);
        lemma_remaining(StoreCall::NextCertificate, decodable.drop_first());
        if decodable[0] {
            assert(answers.drop_first() =~= seq![true, true, true] + rest);
            assert(answers.drop_first().drop_first() =~= seq![true, true] + rest);
            assert(answers.drop_first().drop_first().drop_first() =~= seq![true] + rest);
            assert(answers.drop_first().drop_first().drop_first().drop_first() =~= rest);
            assert(calls(start, answers) =~= seq![
                call,
                StoreCall::Decode,
                StoreCall::AddDecoded,
                StoreCall::FreeDecoded,
            ] + calls(next, rest));
            assert(result(start, answers) == result(next, rest));
        } else {
            assert(answers.drop_first() =~= seq![false, true] + rest);
            assert(answers.drop_first().drop_first() =~= seq![true] + rest);
            assert(answers.drop_first().drop_first().drop_first() =~= rest);
            assert(calls(start, answers) =~= seq![
                call,
                StoreCall::Decode,
                StoreCall::FreeDecoded,
            ] + calls(next, rest));
            assert(result(start, answers) == result(next, rest));
        }
        assert(calls(start, answers) =~= seq![call] + remaining_calls(decodable));
    }
}

} // verus!
