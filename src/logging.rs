//! The text of the service's log lines; writing them is left to the caller.

use vstd::prelude::*;
use crate::format::{int_text, write_int};
use crate::text::text_of;

verus! {

/// The decimal text of `n`.
pub fn decimal(n: i64) -> (r: String)
    ensures
        r@ == int_text(n as int),
{
    let mut out: Vec<char> = Vec::new();
    write_int(n, &mut out);
    assert(out@ =~= int_text(n as int));
    text_of(out.as_slice())
}

/// `head`, then `a`, then `mid`, then `b`.
fn join4(head: &str, a: &str, mid: &str, b: &str) -> (r: String)
    ensures
        r@ == head@ + a@ + mid@ + b@,
{
    let mut s = String::from_str(head);
    s.append(a);
    s.append(mid);
    s.append(b);
    s
}

/// `head`, then `a`.
fn join2(head: &str, a: &str) -> (r: String)
    ensures
        r@ == head@ + a@,
{
    let mut s = String::from_str(head);
    s.append(a);
    s
}

/// Info line: a service starts on `port`.
pub fn log_api_start(api_name: &str, port: u16) -> (r: String)
    ensures
        r@ == "🚀 "@ + api_name@ + " iniciando na porta "@ + int_text(port as int),
{
    join4("🚀 ", api_name, " iniciando na porta ", decimal(port as i64).as_str())
}

/// Info line: a service is ready on `port`.
pub fn log_api_ready(api_name: &str, port: u16) -> (r: String)
    ensures
        r@ == "✅ "@ + api_name@ + " pronta e rodando em http://localhost:"@ + int_text(port as int),
{
    join4("✅ ", api_name, " pronta e rodando em http://localhost:", decimal(port as i64).as_str())
}

/// Info line: a route was registered.
pub fn log_endpoint_registered(method: &str, path: &str) -> (r: String)
    ensures
        r@ == "📝 Endpoint registrado: "@ + method@ + " "@ + path@,
{
    join4("📝 Endpoint registrado: ", method, " ", path)
}

/// Info line: the database connection is up.
pub fn log_database_connection_success() -> (r: String)
    ensures
        r@ == "🗄️  Conexão com banco de dados estabelecida com sucesso"@,
{
    String::from_str("🗄️  Conexão com banco de dados estabelecida com sucesso")
}

/// Error line: the database connection failed.
pub fn log_database_connection_error(error: &str) -> (r: String)
    ensures
        r@ == "❌ Erro na conexão com banco de dados: "@ + error@,
{
    join2("❌ Erro na conexão com banco de dados: ", error)
}

/// Info line: a cache lookup hit.
pub fn log_cache_hit(key: &str) -> (r: String)
    ensures
        r@ == "💾 Cache HIT: "@ + key@,
{
    join2("💾 Cache HIT: ", key)
}

/// Info line: a cache lookup missed.
pub fn log_cache_miss(key: &str) -> (r: String)
    ensures
        r@ == "💾 Cache MISS: "@ + key@,
{
    join2("💾 Cache MISS: ", key)
}

/// Info line: an account authenticated.
pub fn log_authentication_success(user_id: &str) -> (r: String)
    ensures
        r@ == "🔐 Autenticação bem-sucedida para usuário: "@ + user_id@,
{
    join2("🔐 Autenticação bem-sucedida para usuário: ", user_id)
}

/// Warning line: an authentication failed.
pub fn log_authentication_failure(email: &str, reason: &str) -> (r: String)
    ensures
        r@ == "🔐 Falha na autenticação para "@ + email@ + ": "@ + reason@,
{
    join4("🔐 Falha na autenticação para ", email, ": ", reason)
}

/// Warning line: an account was refused a resource.
pub fn log_authorization_failure(user_id: &str, resource: &str) -> (r: String)
    ensures
        r@ == "🚫 Acesso negado para usuário "@ + user_id@ + " ao recurso: "@ + resource@,
{
    join4("🚫 Acesso negado para usuário ", user_id, " ao recurso: ", resource)
}

/// Severity of a log line.
#[derive(Debug, Clone, Copy, PartialEq, Eq, Structural)]
pub enum LogLevel {
    Info,
    Warn,
    Error,
}

/// The request log.
pub struct LoggingMiddleware;

impl LoggingMiddleware {
    /// Severity of the line for a response status: success is info, a
    /// client error a warning, anything else an error.
    pub fn level_for(status: u16) -> (r: LogLevel)
        ensures
            200 <= status < 300 ==> r == LogLevel::Info,
            400 <= status < 500 ==> r == LogLevel::Warn,
            !(200 <= status < 300) && !(400 <= status < 500) ==> r == LogLevel::Error,
    {
        if 200 <= status && status < 300 {
            LogLevel::Info
        } else if 400 <= status && status < 500 {
            LogLevel::Warn
        } else {
            LogLevel::Error
        }
    }

    /// The line for a finished request: method, path, status, latency in
    /// milliseconds and user agent (`Unknown` when absent).
    pub fn request_line(method: &str, uri: &str, status: u16, latency_ms: u32, user_agent: Option<&str>) -> (r: String)
        ensures
            r@ == method@ + " "@ + uri@ + " "@ + int_text(status as int) + " - "@ + int_text(latency_ms as int)
                + "ms - User-Agent: "@ + (match user_agent { Some(a) => a@, None => "Unknown"@ }),
    {
        let mut s = String::from_str(method);
        s.append(" ");
        s.append(uri);
        s.append(" ");
        s.append(decimal(status as i64).as_str());
        s.append(" - ");
        s.append(decimal(latency_ms as i64).as_str());
        s.append("ms - User-Agent: ");
        match user_agent {
            Some(a) => s.append(a),
            None => s.append("Unknown"),
        }
        s
    }
}

} // verus!
