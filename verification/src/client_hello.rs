//! The server name of a browser's TLS ClientHello, read without terminating TLS.

use crate::protocol::{validate_hostname, MAX_CLIENT_HELLO};
use rustls::server::Acceptor;
use vstd::prelude::*;

verus! {

/// `rustls::server::Acceptor`, of which nothing is visible but the chunks it was given.
#[verifier::external_type_specification]
#[verifier::external_body]
pub struct ExAcceptor(rustls::server::Acceptor);

/// What an acceptor answers to the chunk it was given last.
#[derive(Debug, PartialEq, Eq)]
pub enum HelloStep {
    /// The bytes could not be taken in.
    Unreadable,
    /// The bytes begin no ClientHello.
    Malformed,
    /// More bytes are needed.
    Incomplete,
    /// The ClientHello is complete and names this server, or none.
    Complete(Option<String>),
}

/// What an answer of an acceptor stands for.
pub enum HelloView {
    Unreadable,
    Malformed,
    Incomplete,
    Complete(Option<Seq<char>>),
}

impl View for HelloStep {
    type V = HelloView;

    open spec fn view(&self) -> HelloView {
        match *self {
            HelloStep::Unreadable => HelloView::Unreadable,
            HelloStep::Malformed => HelloView::Malformed,
            HelloStep::Incomplete => HelloView::Incomplete,
            HelloStep::Complete(None) => HelloView::Complete(None),
            HelloStep::Complete(Some(name)) => HelloView::Complete(Some(name@)),
        }
    }
}

/// The chunks that an acceptor was given, in order.
pub uninterp spec fn given_to(parser: Acceptor) -> Seq<Seq<u8>>;

/// What an acceptor answers after the last of the chunks it was given.
pub uninterp spec fn hello_after(chunks: Seq<Seq<u8>>) -> HelloView;

/// `rustls::server::Acceptor::default`: an acceptor that was given nothing.
#[verifier::external_body]
fn new_acceptor() -> (parser: Acceptor)
    ensures
        given_to(parser) == Seq::<Seq<u8>>::empty(),
{
    Acceptor::default()
}

/// `rustls::server::Acceptor::read_tls` of one chunk, then `Acceptor::accept`: the answer is a
/// function of the chunks that were given up to and with this one.
#[verifier::external_body]
fn feed(parser: &mut Acceptor, chunk: &[u8]) -> (step: HelloStep)
    ensures
        given_to(*final(parser)) == given_to(*old(parser)).push(chunk@),
        step@ == hello_after(given_to(*final(parser))),
{
    if parser.read_tls(&mut std::io::Cursor::new(chunk)).is_err() {
        return HelloStep::Unreadable;
    }
    match parser.accept() {
        Err(_) => HelloStep::Malformed,
        Ok(None) => HelloStep::Incomplete,
        Ok(Some(hello)) => {
            HelloStep::Complete(hello.client_hello().server_name().map(|name| name.to_owned()))
        }
    }
}

/// Why a connection is not routed by its ClientHello.
#[derive(Clone, Copy, Debug, PartialEq, Eq, Structural)]
pub enum HelloError {
    /// The peer went away, or sent more than the bound without completing the message.
    IncompleteOrTooLarge,
    /// The bytes could not be taken in.
    Unreadable,
    /// The bytes begin no ClientHello.
    Malformed,
    /// The ClientHello names no server.
    MissingName,
    /// The named server is no relay hostname.
    InvalidHostname,
}

/// The verdict on a ClientHello: the exact relay hostname that it names.
pub open spec fn hello_verdict(step: HelloView) -> Result<Option<Seq<char>>, HelloError> {
    match step {
        HelloView::Unreadable => Err(HelloError::Unreadable),
        HelloView::Malformed => Err(HelloError::Malformed),
        HelloView::Incomplete => Ok(None),
        HelloView::Complete(None) => Err(HelloError::MissingName),
        HelloView::Complete(Some(name)) => if crate::protocol::valid_hostname(name) {
            Ok(Some(name))
        } else {
            Err(HelloError::InvalidHostname)
        },
    }
}

/// The text inside an optional hostname.
pub open spec fn hostname_result(outcome: Result<Option<String>, HelloError>) -> Result<
    Option<Seq<char>>,
    HelloError,
> {
    match outcome {
        Ok(Some(name)) => Ok(Some(name@)),
        Ok(None) => Ok(None),
        Err(error) => Err(error),
    }
}

/// Decides what an answer of the acceptor means for a connection.
pub fn judge_hello(step: HelloStep) -> (outcome: Result<Option<String>, HelloError>)
    ensures
        hostname_result(outcome) == hello_verdict(step@),
{
    match step {
        HelloStep::Unreadable => Err(HelloError::Unreadable),
        HelloStep::Malformed => Err(HelloError::Malformed),
        HelloStep::Incomplete => Ok(None),
        HelloStep::Complete(None) => Err(HelloError::MissingName),
        HelloStep::Complete(Some(name)) => {
            if validate_hostname(name.as_str()).is_ok() {
                Ok(Some(name))
            } else {
                Err(HelloError::InvalidHostname)
            }
        },
    }
}

/// How many bytes an acceptor is given at a time: it takes no more in than this.
pub const READ_SIZE: usize = 4096;

/// The pieces that a chunk is handed over in.
pub open spec fn pieces(chunk: Seq<u8>) -> Seq<Seq<u8>>
    decreases chunk.len(),
{
    if chunk.len() <= READ_SIZE {
        seq![chunk]
    } else {
        seq![chunk.take(READ_SIZE as int)] + pieces(chunk.skip(READ_SIZE as int))
    }
}

/// The chunks that an acceptor has been given once it was handed pieces, one by one until it has
/// decided.
pub open spec fn fed(given: Seq<Seq<u8>>, pieces: Seq<Seq<u8>>) -> Seq<Seq<u8>>
    decreases pieces.len(),
{
    if pieces.len() == 0 {
        given
    } else {
        let more = given.push(pieces[0]);
        if hello_after(more) is Incomplete {
            fed(more, pieces.skip(1))
        } else {
            more
        }
    }
}

/// Reads the ClientHello of one connection and keeps every byte of it.
pub struct SniReader {
    parser: Acceptor,
    prefix: Vec<u8>,
}

impl SniReader {
    /// Every byte that was read, in order.
    pub closed spec fn bytes(self) -> Seq<u8> {
        self.prefix@
    }

    /// The pieces that the acceptor was given.
    pub closed spec fn chunks(self) -> Seq<Seq<u8>> {
        given_to(self.parser)
    }

    /// A reader that has read nothing.
    pub fn new() -> (reader: Self)
        ensures
            reader.bytes() == Seq::<u8>::empty(),
            reader.chunks() == Seq::<Seq<u8>>::empty(),
    {
        SniReader { parser: new_acceptor(), prefix: Vec::new() }
    }

    /// Takes in what the browser sent; an empty chunk means that it went away. Gives out the
    /// hostname once the ClientHello is complete. Every chunk that is taken in is kept for
    /// forwarding, unchanged; one that is longer than a read is handed to the acceptor piece by
    /// piece until it has decided.
    pub fn push(&mut self, chunk: &[u8]) -> (outcome: Result<Option<String>, HelloError>)
        ensures
            if chunk@.len() == 0 || old(self).bytes().len() + chunk@.len() > MAX_CLIENT_HELLO {
                &&& outcome == Err::<Option<String>, HelloError>(HelloError::IncompleteOrTooLarge)
                &&& final(self).bytes() == old(self).bytes()
                &&& final(self).chunks() == old(self).chunks()
            } else {
                &&& final(self).bytes() == old(self).bytes() + chunk@
                &&& final(self).chunks() == fed(old(self).chunks(), pieces(chunk@))
                &&& chunk@.len() <= READ_SIZE ==> final(self).chunks()
                    == old(self).chunks().push(chunk@)
                &&& hostname_result(outcome) == hello_verdict(hello_after(final(self).chunks()))
            },
    {
        if chunk.len() == 0 || chunk.len() > MAX_CLIENT_HELLO || self.prefix.len()
            > MAX_CLIENT_HELLO - chunk.len() {
            return Err(HelloError::IncompleteOrTooLarge);
        }
        self.prefix.extend_from_slice(chunk);
        proof {
            assert(self.prefix@ =~= old(self).prefix@ + chunk@);
        }
        proof {
            if chunk@.len() <= READ_SIZE {
                reveal_with_fuel(fed, 2);
                assert(pieces(chunk@).skip(1) =~= Seq::<Seq<u8>>::empty());
            }
            assert(chunk@.skip(0) =~= chunk@);
        }
        let ghost whole = fed(given_to(self.parser), pieces(chunk@));
        let mut start: usize = 0;
        while chunk.len() - start > READ_SIZE
            invariant
                start < chunk@.len(),
                self.prefix@ == old(self).prefix@ + chunk@,
                whole == fed(given_to(self.parser), pieces(chunk@.skip(start as int))),
                whole == fed(old(self).chunks(), pieces(chunk@)),
                0 < chunk@.len(),
                chunk@.len() <= READ_SIZE ==> whole == old(self).chunks().push(chunk@),
                old(self).bytes().len() + chunk@.len() <= MAX_CLIENT_HELLO,
            decreases chunk@.len() - start,
        {
            let ghost rest = chunk@.skip(start as int);
            let piece: &[u8] = vstd::slice::slice_subrange(chunk, start, start + READ_SIZE);
            proof {
                assert(piece@ =~= rest.take(READ_SIZE as int));
                assert(rest.skip(READ_SIZE as int) =~= chunk@.skip(start + READ_SIZE));
                assert(pieces(rest)[0] == piece@);
                assert(pieces(rest).skip(1) =~= pieces(rest.skip(READ_SIZE as int)));
            }
            match feed(&mut self.parser, piece) {
                HelloStep::Incomplete => {},
                step => {
                    return judge_hello(step);
                },
            }
            start = start + READ_SIZE;
        }
        let last: &[u8] = vstd::slice::slice_subrange(chunk, start, chunk.len());
        proof {
            assert(last@ =~= chunk@.skip(start as int));
            reveal_with_fuel(fed, 2);
            assert(pieces(last@).skip(1) =~= Seq::<Seq<u8>>::empty());
        }
        let step: HelloStep = feed(&mut self.parser, last);
        judge_hello(step)
    }

    /// Hands out every byte that was read.
    pub fn into_bytes(self) -> (bytes: Vec<u8>)
        ensures
            bytes@ == self.bytes(),
    {
        self.prefix
    }
}

/// A connection is let on exactly where its ClientHello is complete and names a relay hostname,
/// under that very name; it is read on where the message is not complete, and refused otherwise.
pub proof fn law_hello_names_a_relay_hostname(step: HelloView)
    ensures
        hello_verdict(step) == Ok::<Option<Seq<char>>, HelloError>(None)
            <==> step is Incomplete,
        forall|name: Seq<char>|
            (hello_verdict(step) == Ok::<Option<Seq<char>>, HelloError>(Some(name))) <==> (
            #[trigger] crate::protocol::valid_hostname(name) && step == HelloView::Complete(
                Some(name),
            )),
        step is Unreadable ==> hello_verdict(step)->Err_0 is Unreadable,
        step is Malformed ==> hello_verdict(step)->Err_0 is Malformed,
        step == HelloView::Complete(None) ==> hello_verdict(step)->Err_0 is MissingName,
        step matches HelloView::Complete(Some(name)) ==> !crate::protocol::valid_hostname(name)
            ==> hello_verdict(step)->Err_0 is InvalidHostname,
{
}

/// Pieces one behind the other.
pub open spec fn put_together(parts: Seq<Seq<u8>>) -> Seq<u8>
    decreases parts.len(),
{
    if parts.len() == 0 {
        Seq::empty()
    } else {
        parts[0] + put_together(parts.skip(1))
    }
}

/// A chunk is handed on whole: in pieces of at most 4096 bytes that together are the chunk.
pub proof fn law_pieces_are_the_chunk(chunk: Seq<u8>)
    ensures
        put_together(pieces(chunk)) == chunk,
        pieces(chunk).len() > 0,
        forall|i: int| 0 <= i < pieces(chunk).len() ==> (#[trigger] pieces(chunk)[i]).len() <= 4_096,
        chunk.len() > 0 ==> forall|i: int|
            0 <= i < pieces(chunk).len() ==> (#[trigger] pieces(chunk)[i]).len() > 0,
    decreases chunk.len(),
{
    let parts = pieces(chunk);
    if chunk.len() <= READ_SIZE {
        assert(parts.skip(1) =~= Seq::<Seq<u8>>::empty());
        assert(chunk + Seq::<u8>::empty() =~= chunk);
        reveal_with_fuel(put_together, 2);
    } else {
        let head = chunk.take(READ_SIZE as int);
        let rest = chunk.skip(READ_SIZE as int);
        law_pieces_are_the_chunk(rest);
        assert(parts.skip(1) =~= pieces(rest));
        assert(head + rest =~= chunk);
        assert forall|i: int| 0 <= i < parts.len() implies 0 < (#[trigger] parts[i]).len() <= 4_096
            by {
            if i > 0 {
                assert(parts[i] == pieces(rest)[i - 1]);
            }
        }
    }
}

/// Pieces are handed on from the first on, in order, and as long as the message is not complete.
pub proof fn law_pieces_are_fed_in_order(given: Seq<Seq<u8>>, parts: Seq<Seq<u8>>)
    ensures
        given.len() <= fed(given, parts).len() <= given.len() + parts.len(),
        fed(given, parts).take(given.len() as int) == given,
        forall|i: int|
            given.len() <= i < fed(given, parts).len() ==> #[trigger] fed(given, parts)[i]
                == parts[i - given.len()],
        forall|n: int|
            given.len() < n < fed(given, parts).len() ==> hello_after(
                #[trigger] fed(given, parts).take(n),
            ) is Incomplete,
        fed(given, parts).len() < given.len() + parts.len() ==> !(hello_after(
            fed(given, parts),
        ) is Incomplete),
    decreases parts.len(),
{
    let whole = fed(given, parts);
    if parts.len() == 0 {
        assert(whole.take(given.len() as int) =~= given);
    } else {
        let more = given.push(parts[0]);
        if hello_after(more) is Incomplete {
            let rest = parts.skip(1);
            law_pieces_are_fed_in_order(more, rest);
            assert(whole.take(more.len() as int) == more);
            assert(whole.take(given.len() as int) =~= given) by {
                assert forall|i: int| 0 <= i < given.len() implies whole[i] == given[i] by {
                    assert(whole.take(more.len() as int)[i] == more[i]);
                }
            }
            assert forall|i: int| given.len() <= i < whole.len() implies #[trigger] whole[i]
                == parts[i - given.len()] by {
                if i == given.len() {
                    assert(whole.take(more.len() as int)[i] == more[i]);
                } else {
                    assert(whole[i] == rest[i - more.len()]);
                }
            }
            assert forall|n: int| given.len() < n < whole.len() implies hello_after(
                #[trigger] whole.take(n),
            ) is Incomplete by {
                if n == more.len() {
                    assert(whole.take(n) == more);
                }
            }
        } else {
            assert(whole.take(given.len() as int) =~= given);
        }
    }
}

} // verus!
