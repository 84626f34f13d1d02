use crate::stream::incoming;
use crate::stream::Level;
use crate::util::describe;
use vstd::prelude::*;

verus! {

/// A datagram direction error.
#[derive(Debug)]
pub enum Error {
    /// Sending/receiving side no more interested in datagrams.
    End,
    /// A QUIC connection is closed.
    Connection,
    /// Internal error, unexpected issue.
    HangUp(String),
}

impl Clone for Error {
    fn clone(&self) -> (r: Self)
        ensures
            r == *self,
    {
        match self {
            Error::End => Error::End,
            Error::Connection => Error::Connection,
            Error::HangUp(e) => Error::HangUp(e.clone()),
        }
    }
}

/// What is told about a closed datagram direction.
#[derive(Debug, Clone, Copy, PartialEq, Eq, Structural)]
pub enum DgramNotice {
    /// The direction has ended, the application is not told.
    End,
    /// The application is told that the connection is closed.
    Connection,
    /// The application is told that something has disappeared.
    HangUp,
}

/// How a datagram direction is closed.
#[derive(Debug)]
pub struct DgramClosePlan {
    /// The level of the log message.
    pub level: Level,
    /// What is told.
    pub notice: DgramNotice,
    /// What has disappeared, if anything has.
    pub message: Option<String>,
}

impl Error {
    /// The description of the error.
    pub open spec fn spec_message(&self) -> Seq<char> {
        match *self {
            Error::End => "normal end"@,
            Error::Connection => "connection is closed"@,
            Error::HangUp(e) => describe::around("hang-up ("@, e@, ")"@),
        }
    }

    /// Returns the description of the error.
    pub fn message(&self) -> (r: String)
        ensures
            r@ == self.spec_message(),
    {
        match self {
            Error::End => "normal end".to_string(),
            Error::Connection => "connection is closed".to_string(),
            Error::HangUp(e) => describe::put_around("hang-up (", e.as_str(), ")"),
        }
    }

    /// How a direction is closed with the error.
    pub open spec fn plan(self) -> DgramClosePlan {
        match self {
            Error::End => DgramClosePlan {
                level: Level::Debug,
                notice: DgramNotice::End,
                message: None,
            },
            Error::Connection => DgramClosePlan {
                level: Level::Debug,
                notice: DgramNotice::Connection,
                message: None,
            },
            Error::HangUp(e) => DgramClosePlan {
                level: Level::Warn,
                notice: DgramNotice::HangUp,
                message: Some(e),
            },
        }
    }

    /// Returns how a direction is closed with the error.
    pub fn into_plan(self) -> (r: DgramClosePlan)
        ensures
            r == self.plan(),
    {
        match self {
            Error::End => DgramClosePlan {
                level: Level::Debug,
                notice: DgramNotice::End,
                message: None,
            },
            Error::Connection => DgramClosePlan {
                level: Level::Debug,
                notice: DgramNotice::Connection,
                message: None,
            },
            Error::HangUp(e) => DgramClosePlan {
                level: Level::Warn,
                notice: DgramNotice::HangUp,
                message: Some(e),
            },
        }
    }

    /// Takes the error that the application has closed a channel of items with,
    /// `None` if there is none although the channel is gone.
    ///
    /// Returns the error to close a direction with, `None` if the error is one of our own.
    ///
    /// * `name`: the name of the direction.
    /// * `channel`: the name of the channel.
    pub fn of_app(error: Option<Error>, name: &str, channel: &str) -> (r: Option<Error>)
        ensures
            match error {
                Some(Error::Connection) => r is None,
                Some(_) => r == error,
                None => r is Some && (r->0 matches Error::HangUp(message) && message@
                    == incoming::about(name@, channel@ + " error channel is unavailable"@)),
            },
    {
        match error {
            Some(Error::Connection) => None,
            Some(error) => Some(error),
            None => {
                let text = describe::put_around("", channel, " error channel is unavailable");
                assert(text@ =~= channel@ + " error channel is unavailable"@) by {
                    reveal_strlit("");
                }
                Some(Error::HangUp(incoming::tell_about(name, text.as_str())))
            },
        }
    }

    /// Takes the error that a direction is cancelled with,
    /// `None` if there is none although the channel of cancellation is gone.
    ///
    /// Returns the error to close the direction with.
    ///
    /// * `name`: the name of the direction.
    pub fn of_cancellation(error: Option<Error>, name: &str) -> (r: Error)
        ensures
            match error {
                Some(error) => r == error,
                None => r matches Error::HangUp(message) && message@ == incoming::about(
                    name@,
                    "cancellation-signal channel is unavailable"@,
                ),
            },
    {
        match error {
            Some(error) => error,
            None => Error::HangUp(
                incoming::tell_about(name, "cancellation-signal channel is unavailable"),
            ),
        }
    }

    /// Takes the error of a channel of items that could not be used.
    ///
    /// Returns the error to close a direction with.
    ///
    /// * `name`: the name of the direction.
    /// * `channel`: the name of the channel.
    pub fn of_channel(self, name: &str, channel: &str) -> (r: Error)
        ensures
            match self {
                Error::End => r is End,
                Error::HangUp(reason) => r matches Error::HangUp(message) && message@
                    == incoming::about(
                    name@,
                    describe::around(channel@, " channel is unavailable: "@, reason@),
                ),
                Error::Connection => r matches Error::HangUp(message) && message@
                    == incoming::about(
                    name@,
                    describe::around(
                        channel@,
                        " channel returned an unexpected error: "@,
                        self.spec_message(),
                    ),
                ),
            },
    {
        match self {
            Error::End => Error::End,
            Error::HangUp(reason) => {
                let text = describe::put_around(
                    channel,
                    " channel is unavailable: ",
                    reason.as_str(),
                );
                Error::HangUp(incoming::tell_about(name, text.as_str()))
            },
            Error::Connection => {
                let text = describe::put_around(
                    channel,
                    " channel returned an unexpected error: ",
                    self.message().as_str(),
                );
                Error::HangUp(incoming::tell_about(name, text.as_str()))
            },
        }
    }
}

/// Only what has disappeared is a warning, and told with what it is.
/// An application is told of everything but an ordinary end.
pub proof fn law_closing_tells_the_error(error: Error)
    ensures
        error.plan().notice is End <==> error is End,
        error.plan().notice is Connection <==> error is Connection,
        error.plan().notice is HangUp <==> error is HangUp,
        error.plan().message == match error {
            Error::HangUp(message) => Some(message),
            _ => None,
        },
        error.plan().level is Warn <==> error is HangUp,
        error.plan().level is Debug <==> !(error is HangUp),
        error is End ==> error.spec_message() == "normal end"@,
        error is Connection ==> error.spec_message() == "connection is closed"@,
        error matches Error::HangUp(e) ==> error.spec_message() == "hang-up ("@ + e@ + ")"@,
{
}

} // verus!
