//! The low-level transport boundary: encoding one command string into the
//! byte message the renderer's port expects, and the state machine for the
//! cached destination handle.  The actual port send is outside the library;
//! it reports its outcome back through [`PortCache::settle`].

use vstd::prelude::*;
use vstd::string::StringSliceAdditionalSpecFns;

verus! {

/// What encoding the rest of the input under a given open quote yields.
/// `quote` is 0 when no quote is open, else the opening quote byte.
/// Quote bytes toggle quoting and are dropped; a space outside quotes
/// becomes the null separator; every other byte passes through.
pub open spec fn encode_from(s: Seq<u8>, quote: u8) -> Seq<u8>
    decreases s.len(),
{
    if s.len() == 0 {
        Seq::<u8>::empty()
    } else {
        let b = s[0];
        let rest = s.drop_first();
        if b == 34 || b == 39 {
            if quote == b {
                encode_from(rest, 0)
            } else if quote == 0 {
                encode_from(rest, b)
            } else {
                seq![b] + encode_from(rest, quote)
            }
        } else if b == 32 && quote == 0 {
            seq![0u8] + encode_from(rest, quote)
        } else {
            seq![b] + encode_from(rest, quote)
        }
    }
}

/// The full wire encoding: the quote-and-space transform, one doubled
/// trailing null collapsed, and a final null terminator appended.
pub open spec fn encoded_message(s: Seq<u8>) -> Seq<u8> {
    let e = encode_from(s, 0);
    let t = if e.len() > 1 && e[e.len() - 1] == 0 && e[e.len() - 2] == 0 {
        e.drop_last()
    } else {
        e
    };
    t + seq![0u8]
}

/// Encodes one command for the low-level transport: spaces outside quoted
/// segments become null separators, the quote characters themselves are
/// stripped (their quoted spaces survive as literal spaces), and the
/// message is null-terminated.
pub fn format_message(message: &str) -> (r: Vec<u8>)
    ensures
        r@ == encoded_message(message.spec_bytes()),
{
    let bytes = message.as_bytes();
    let n = bytes.len();
    let mut formatted: Vec<u8> = Vec::new();
    let mut quote: u8 = 0;
    let mut i: usize = 0;
    proof {
        assert(bytes@.skip(0) =~= bytes@);
    }
    while i < n
        invariant
            n == bytes@.len(),
            i <= n,
            formatted@ + encode_from(bytes@.skip(i as int), quote) == encode_from(bytes@, 0),
        decreases n - i,
    {
        let b = bytes[i];
        proof {
            assert(bytes@.skip(i as int)[0] == b);
            assert(bytes@.skip(i as int).drop_first() =~= bytes@.skip(i + 1));
        }
        if b == 34 || b == 39 {
            if quote == b {
                quote = 0;
            } else if quote == 0 {
                quote = b;
            } else {
                formatted.push(b);
            }
        } else if b == 32 && quote == 0 {
            formatted.push(0);
        } else {
            formatted.push(b);
        }
        i += 1;
    }
    proof {
        assert(bytes@.skip(n as int) =~= Seq::<u8>::empty());
        assert(formatted@ == encode_from(bytes@, 0));
    }
    let len = formatted.len();
    if len > 1 && formatted[len - 1] == 0 && formatted[len - 2] == 0 {
        formatted.pop();
        proof {
            assert(formatted@ =~= encode_from(bytes@, 0).drop_last());
        }
    }
    formatted.push(0);
    formatted
}

/// A transport failure; a receive timeout is not one.
pub enum TransportError {
    /// The renderer's port could not be resolved in the service registry.
    Lookup,
    /// The send itself failed.
    Send,
    /// A receive failed for a reason other than a timeout.
    Receive,
}

impl TransportError {
    /// A short description for logging.
    pub fn message(&self) -> (r: &'static str)
        ensures
            (self is Lookup) ==> r@ == "failed to look up the renderer port"@,
            (self is Send) ==> r@ == "failed to send to the renderer port"@,
            (self is Receive) ==> r@ == "failed to receive the renderer reply"@,
    {
        match self {
            TransportError::Lookup => "failed to look up the renderer port",
            TransportError::Send => "failed to send to the renderer port",
            TransportError::Receive => "failed to receive the renderer reply",
        }
    }
}

/// What one delivery attempt reported back.
pub enum SendOutcome {
    /// The message was sent and a reply arrived.
    Delivered,
    /// The message was sent and the bounded reply wait ran out; the
    /// renderer need not acknowledge, so this counts as success.
    ReplyTimedOut,
    /// The port lookup failed before anything was sent.
    LookupFailed,
    /// The send failed.
    SendFailed,
    /// The receive failed for a reason other than a timeout.
    ReceiveFailed,
}

/// Where [`PortCache::settle`] leaves the cached handle.
pub open spec fn settled_port(port: Option<u32>, outcome: SendOutcome) -> Option<u32> {
    match outcome {
        SendOutcome::Delivered => port,
        SendOutcome::ReplyTimedOut => port,
        SendOutcome::LookupFailed => None,
        SendOutcome::SendFailed => None,
        SendOutcome::ReceiveFailed => None,
    }
}

/// What [`PortCache::settle`] returns.
pub open spec fn settled_result(outcome: SendOutcome) -> Result<(), TransportError> {
    match outcome {
        SendOutcome::Delivered => Ok(()),
        SendOutcome::ReplyTimedOut => Ok(()),
        SendOutcome::LookupFailed => Err(TransportError::Lookup),
        SendOutcome::SendFailed => Err(TransportError::Send),
        SendOutcome::ReceiveFailed => Err(TransportError::Receive),
    }
}

/// The cached destination handle of the low-level transport, owned
/// explicitly instead of hiding in a process-wide static.
pub struct PortCache {
    pub port: Option<u32>,
}

impl PortCache {
    /// A cache with no resolved handle yet.
    pub fn new() -> (r: Self)
        ensures
            r.port is None,
    {
        PortCache { port: None }
    }

    /// The cached handle, if any.
    pub fn cached(&self) -> (r: Option<u32>)
        ensures
            r == self.port,
    {
        match self.port {
            Some(p) => Some(p),
            None => None,
        }
    }

    /// Records a freshly resolved handle.
    pub fn store(&mut self, port: u32)
        ensures
            final(self).port == Some(port),
    {
        self.port = Some(port);
    }

    /// Drops the cached handle so the next delivery re-resolves it.
    pub fn reset_port(&mut self)
        ensures
            final(self).port is None,
    {
        self.port = None;
    }

    /// Turns a delivery outcome into the transport result and updates the
    /// cache: a reply timeout is success and keeps the handle; any real
    /// failure invalidates the handle.
    pub fn settle(&mut self, outcome: SendOutcome) -> (r: Result<(), TransportError>)
        ensures
            final(self).port == settled_port(old(self).port, outcome),
            r == settled_result(outcome),
    {
        match outcome {
            SendOutcome::Delivered => Ok(()),
            SendOutcome::ReplyTimedOut => Ok(()),
            SendOutcome::LookupFailed => {
                self.port = None;
                Err(TransportError::Lookup)
            },
            SendOutcome::SendFailed => {
                self.port = None;
                Err(TransportError::Send)
            },
            SendOutcome::ReceiveFailed => {
                self.port = None;
                Err(TransportError::Receive)
            },
        }
    }
}

/// The cached handle is invalidated exactly by transport errors: a
/// successful delivery and a reply timeout keep it, every failure clears
/// it, and the result is an error exactly when the handle was cleared.
pub proof fn lemma_invalidate_only_on_error(port: Option<u32>, outcome: SendOutcome)
    ensures
        settled_result(outcome) is Ok ==> settled_port(port, outcome) == port,
        settled_result(outcome) is Err ==> settled_port(port, outcome) is None,
        (outcome is Delivered || outcome is ReplyTimedOut) <==> settled_result(outcome) is Ok,
{
}

} // verus!
