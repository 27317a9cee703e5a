//! The server's settings: which database to reach, and where to listen.

use vstd::prelude::*;

use crate::cli::DEFAULT_SERVER_PORT;
use crate::types::text_of;

verus! {

/// The port of a database server unless told otherwise.
pub const DEFAULT_DATABASE_PORT: u16 = 5432;

/// What the server was asked to do.
#[derive(Clone, Debug, PartialEq, Eq)]
pub struct Args {
    /// The host name of the database server.
    pub host: String,
    /// The user to connect as.
    pub user: String,
    /// The user's password, if one is needed.
    pub password: Option<String>,
    /// The name of the database.
    pub database: String,
    /// The port of the database server, if not the default.
    pub database_port: Option<u16>,
    /// The port on which to listen for requests, if not the default.
    pub server_port: Option<u16>,
}

/// Everything a session to the database is opened with.
#[derive(Clone, Debug, PartialEq, Eq)]
pub struct Connection {
    pub host: String,
    pub user: String,
    pub password: String,
    pub database: String,
    pub port: u16,
}

/// A connection's settings, as mathematical values.
pub struct ConnectionView {
    pub host: Seq<char>,
    pub user: Seq<char>,
    pub password: Seq<char>,
    pub database: Seq<char>,
    pub port: u16,
}

impl View for Connection {
    type V = ConnectionView;

    open spec fn view(&self) -> ConnectionView {
        ConnectionView {
            host: self.host@,
            user: self.user@,
            password: self.password@,
            database: self.database@,
            port: self.port,
        }
    }
}

impl Args {
    /// The settings of both sessions: the password is empty and the port is
    /// the default one where the arguments give none.
    pub open spec fn connection_spec(&self) -> ConnectionView {
        ConnectionView {
            host: self.host@,
            user: self.user@,
            password: match text_of(self.password) {
                Some(password) => password,
                None => Seq::empty(),
            },
            database: self.database@,
            port: match self.database_port {
                Some(port) => port,
                None => DEFAULT_DATABASE_PORT,
            },
        }
    }

    /// The settings with which each of the two sessions is opened.
    pub fn connection(&self) -> (connection: Connection)
        ensures
            connection@ == self.connection_spec(),
    {
        Connection {
            host: self.host.clone(),
            user: self.user.clone(),
            password: match &self.password {
                Some(password) => password.clone(),
                None => String::new(),
            },
            database: self.database.clone(),
            port: match self.database_port {
                Some(port) => port,
                None => DEFAULT_DATABASE_PORT,
            },
        }
    }

    /// The port on which the server listens.
    pub fn listen_port(&self) -> (port: u16)
        ensures
            port == match self.server_port {
                Some(port) => port,
                None => DEFAULT_SERVER_PORT,
            },
    {
        match self.server_port {
            Some(port) => port,
            None => DEFAULT_SERVER_PORT,
        }
    }
}

} // verus!
