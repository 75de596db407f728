//! What it takes to reach a database server: which settings are accepted,
//! and what the pool of connections is set up with.

use crate::error::{AppError, AppErrorCode};
use vstd::prelude::*;
use vstd::string::StringExecFns;

verus! {

/// Kinds of database servers.
#[derive(Debug, Clone, Copy, PartialEq, Eq, Structural)]
pub enum AppDbServerType {
    MariaDB,
    PostgreSQL,
}

/// Settings of a database server.
#[derive(Debug, Clone)]
pub struct AppDbServerCfg {
    pub alias: String,
    pub srv_type: AppDbServerType,
    pub max_conns: u32,
    pub acquire_timeout_secs: u16,
    pub idle_timeout_secs: u16,
    pub confidentiality_path: String,
    pub db_name: String,
}

/// Where the server is and who connects to it.
#[derive(Debug, Clone)]
pub struct DbSecret {
    pub host: String,
    pub port: u16,
    pub user: String,
    pub password: String,
}

/// What a pool of connections to a MariaDB server is set up with.
#[derive(Debug, Clone)]
pub struct MariaDbPoolPlan {
    pub alias: String,
    pub host: String,
    pub port: u16,
    pub username: String,
    pub password: String,
    pub database: String,
    pub max_connections: u32,
    pub min_connections: u32,
    pub idle_timeout_secs: u64,
    pub acquire_timeout_secs: u64,
}

/// How the kind of a server is named.
pub open spec fn server_type_name(t: AppDbServerType) -> Seq<char> {
    match t {
        AppDbServerType::MariaDB => "MariaDB"@,
        AppDbServerType::PostgreSQL => "PostgreSQL"@,
    }
}

/// Accepts the settings of a MariaDB server; those of any other kind of
/// server are refused as invalid input.
pub fn check_server_type(cfg: &AppDbServerCfg) -> (r: Result<(), AppError>)
    ensures
        cfg.srv_type == AppDbServerType::MariaDB <==> r is Ok,
        r matches Err(e) ==> e.is(
            AppErrorCode::InvalidInput,
            "db-cfg-server-type: "@ + server_type_name(cfg.srv_type),
        ),
{
    match cfg.srv_type {
        AppDbServerType::MariaDB => Ok(()),
        AppDbServerType::PostgreSQL => Err(
            AppError::new(
                AppErrorCode::InvalidInput,
                String::from_str("db-cfg-server-type: ").concat("PostgreSQL"),
            ),
        ),
    }
}

/// Plans the pool of connections to a MariaDB server, where `secret` is
/// what the secret of the server was read as, or why it could not be read.
///
/// The pool connects lazily, keeps no connection open when idle, and takes
/// its limits from the settings.  A secret that could not be read is
/// reported as badly formed JSON, with the reason.
pub fn plan_pool(cfg: &AppDbServerCfg, secret: Result<DbSecret, String>) -> (r: Result<
    MariaDbPoolPlan,
    AppError,
>)
    ensures
        match secret {
            Ok(s) => r matches Ok(p) && p.alias@ == cfg.alias@ && p.host@ == s.host@ && p.port
                == s.port && p.username@ == s.user@ && p.password@ == s.password@ && p.database@
                == cfg.db_name@ && p.max_connections == cfg.max_conns && p.min_connections == 0
                && p.idle_timeout_secs == cfg.idle_timeout_secs && p.acquire_timeout_secs
                == cfg.acquire_timeout_secs,
            Err(why) => r matches Err(e) && e.is(
                AppErrorCode::InvalidJsonFormat,
                why@ + ", secret-parsing-error, source: AppMariaDbStore"@,
            ),
        },
{
    match secret {
        Ok(s) => Ok(
            MariaDbPoolPlan {
                alias: cfg.alias.clone(),
                host: s.host,
                port: s.port,
                username: s.user,
                password: s.password,
                database: cfg.db_name.clone(),
                max_connections: cfg.max_conns,
                min_connections: 0,
                idle_timeout_secs: cfg.idle_timeout_secs as u64,
                acquire_timeout_secs: cfg.acquire_timeout_secs as u64,
            },
        ),
        Err(why) => Err(
            AppError::new(
                AppErrorCode::InvalidJsonFormat,
                why.concat(", secret-parsing-error, source: AppMariaDbStore"),
            ),
        ),
    }
}

/// The error to report when the pool gives no connection: a failure of
/// the remote database server, with what the pool said.
pub fn acquire_failure(why: String) -> (e: AppError)
    ensures
        e.is(AppErrorCode::RemoteDbServerFailure, why@),
{
    AppError::new(AppErrorCode::RemoteDbServerFailure, why)
}

} // verus!
