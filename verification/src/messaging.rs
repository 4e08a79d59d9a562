//! Messaging platforms: their stored names, the credentials each needs to
//! send, and the connections recorded for them.

use vstd::prelude::*;
use crate::text::{append_str, chars_of, eq_str};

verus! {

broadcast use vstd::string::group_string_axioms;

/// A messaging platform.
#[derive(Debug, Clone, Copy, PartialEq, Eq, Structural)]
pub enum MessagingPlatform {
    Slack,
    WhatsApp,
    Teams,
}

/// The name a platform is stored under.
pub open spec fn platform_name(p: MessagingPlatform) -> Seq<char> {
    match p {
        MessagingPlatform::Slack => "slack"@,
        MessagingPlatform::WhatsApp => "whatsapp"@,
        MessagingPlatform::Teams => "teams"@,
    }
}

/// The platform stored under a name.
pub open spec fn platform_named(name: Seq<char>) -> Option<MessagingPlatform> {
    if name == "slack"@ {
        Some(MessagingPlatform::Slack)
    } else if name == "whatsapp"@ {
        Some(MessagingPlatform::WhatsApp)
    } else if name == "teams"@ {
        Some(MessagingPlatform::Teams)
    } else {
        None
    }
}

impl MessagingPlatform {
    /// The name the platform is stored under.
    pub fn as_str(&self) -> (r: &'static str)
        ensures
            r@ == platform_name(*self),
    {
        match self {
            MessagingPlatform::Slack => "slack",
            MessagingPlatform::WhatsApp => "whatsapp",
            MessagingPlatform::Teams => "teams",
        }
    }

    /// The platform stored under `name`, where it names one.
    pub fn from_str(name: &str) -> (r: Option<MessagingPlatform>)
        ensures
            r == platform_named(name@),
    {
        let v = chars_of(name);
        if eq_str(&v, "slack") {
            Some(MessagingPlatform::Slack)
        } else if eq_str(&v, "whatsapp") {
            Some(MessagingPlatform::WhatsApp)
        } else if eq_str(&v, "teams") {
            Some(MessagingPlatform::Teams)
        } else {
            None
        }
    }
}

/// Reading a stored name back gives the platform that was stored.
pub proof fn law_platform_name_round_trip(p: MessagingPlatform)
    ensures
        platform_named(platform_name(p)) == Some(p),
{
    reveal_strlit("slack");
    reveal_strlit("whatsapp");
    reveal_strlit("teams");
    assert("slack"@.len() == 5 && "whatsapp"@.len() == 8 && "teams"@.len() == 5 && "slack"@[0]
        == 's' && "teams"@[0] == 't');
}

/// The platform of a stored connection, or `"Invalid platform: <name>"`.
pub fn connection_platform(name: &str) -> (r: Result<MessagingPlatform, String>)
    ensures
        match platform_named(name@) {
            Some(p) => r == Ok::<MessagingPlatform, String>(p),
            None => r matches Err(e) && e@ == "Invalid platform: "@ + name@,
        },
{
    match MessagingPlatform::from_str(name) {
        Some(p) => Ok(p),
        None => {
            let mut e = String::new();
            append_str(&mut e, "Invalid platform: ");
            append_str(&mut e, name);
            Err(e)
        },
    }
}

/// The string fields read from a connection's stored credentials, each
/// where it is present and a string.
#[derive(Debug)]
pub struct CredentialFields {
    pub bot_token: Option<String>,
    pub app_token: Option<String>,
    pub signing_secret: Option<String>,
    pub phone_number_id: Option<String>,
    pub access_token: Option<String>,
    pub tenant_id: Option<String>,
    pub client_id: Option<String>,
    pub client_secret: Option<String>,
}

/// What a platform's client is built from.
#[derive(Debug)]
pub enum PlatformConfig {
    Slack { bot_token: String, app_token: String, signing_secret: String },
    WhatsApp { phone_number_id: String, access_token: String },
    Teams { tenant_id: String, client_id: String, client_secret: String },
}

/// The first of a platform's required fields that is missing, in the order
/// they are read, as the message `"Missing <field>"`.
pub open spec fn missing_field(p: MessagingPlatform, f: CredentialFields) -> Option<Seq<char>> {
    match p {
        MessagingPlatform::Slack => if f.bot_token is None {
            Some("Missing bot_token"@)
        } else if f.app_token is None {
            Some("Missing app_token"@)
        } else if f.signing_secret is None {
            Some("Missing signing_secret"@)
        } else {
            None
        },
        MessagingPlatform::WhatsApp => if f.phone_number_id is None {
            Some("Missing phone_number_id"@)
        } else if f.access_token is None {
            Some("Missing access_token"@)
        } else {
            None
        },
        MessagingPlatform::Teams => if f.tenant_id is None {
            Some("Missing tenant_id"@)
        } else if f.client_id is None {
            Some("Missing client_id"@)
        } else if f.client_secret is None {
            Some("Missing client_secret"@)
        } else {
            None
        },
    }
}

/// `"Missing <field>"`.
fn missing(field: &str) -> (r: String)
    ensures
        r@ == "Missing "@ + field@,
{
    let mut r = String::new();
    append_str(&mut r, "Missing ");
    append_str(&mut r, field);
    r
}

/// The required field `field` of the credentials.
fn required(value: Option<String>, field: &str) -> (r: Result<String, String>)
    ensures
        match value {
            Some(v) => r == Ok::<String, String>(v),
            None => r matches Err(e) && e@ == "Missing "@ + field@,
        },
{
    match value {
        Some(v) => Ok(v),
        None => Err(missing(field)),
    }
}

/// What the client of `platform` is built from: its required credential
/// fields, taken from `fields`; the first one missing is refused.
pub fn platform_config(platform: MessagingPlatform, fields: CredentialFields) -> (r: Result<
    PlatformConfig,
    String,
>)
    ensures
        match missing_field(platform, fields) {
            Some(m) => r matches Err(e) && e@ == m,
            None => match platform {
                MessagingPlatform::Slack => r == Ok::<PlatformConfig, String>(
                    PlatformConfig::Slack {
                        bot_token: fields.bot_token->0,
                        app_token: fields.app_token->0,
                        signing_secret: fields.signing_secret->0,
                    },
                ),
                MessagingPlatform::WhatsApp => r == Ok::<PlatformConfig, String>(
                    PlatformConfig::WhatsApp {
                        phone_number_id: fields.phone_number_id->0,
                        access_token: fields.access_token->0,
                    },
                ),
                MessagingPlatform::Teams => r == Ok::<PlatformConfig, String>(
                    PlatformConfig::Teams {
                        tenant_id: fields.tenant_id->0,
                        client_id: fields.client_id->0,
                        client_secret: fields.client_secret->0,
                    },
                ),
            },
        },
{
    proof {
        reveal_strlit("Missing ");
        reveal_strlit("bot_token");
        reveal_strlit("Missing bot_token");
        reveal_strlit("app_token");
        reveal_strlit("Missing app_token");
        reveal_strlit("signing_secret");
        reveal_strlit("Missing signing_secret");
        reveal_strlit("phone_number_id");
        reveal_strlit("Missing phone_number_id");
        reveal_strlit("access_token");
        reveal_strlit("Missing access_token");
        reveal_strlit("tenant_id");
        reveal_strlit("Missing tenant_id");
        reveal_strlit("client_id");
        reveal_strlit("Missing client_id");
        reveal_strlit("client_secret");
        reveal_strlit("Missing client_secret");
    }
    let CredentialFields {
        bot_token,
        app_token,
        signing_secret,
        phone_number_id,
        access_token,
        tenant_id,
        client_id,
        client_secret,
    } = fields;
    match platform {
        MessagingPlatform::Slack => {
            let b = required(bot_token, "bot_token");
            let b = match b {
                Ok(v) => v,
                Err(e) => {
                    assert(e@ =~= "Missing bot_token"@);
                    return Err(e);
                },
            };
            let a = match required(app_token, "app_token") {
                Ok(v) => v,
                Err(e) => {
                    assert(e@ =~= "Missing app_token"@);
                    return Err(e);
                },
            };
            let s = match required(signing_secret, "signing_secret") {
                Ok(v) => v,
                Err(e) => {
                    assert(e@ =~= "Missing signing_secret"@);
                    return Err(e);
                },
            };
            Ok(PlatformConfig::Slack { bot_token: b, app_token: a, signing_secret: s })
        },
        MessagingPlatform::WhatsApp => {
            let p = match required(phone_number_id, "phone_number_id") {
                Ok(v) => v,
                Err(e) => {
                    assert(e@ =~= "Missing phone_number_id"@);
                    return Err(e);
                },
            };
            let a = match required(access_token, "access_token") {
                Ok(v) => v,
                Err(e) => {
                    assert(e@ =~= "Missing access_token"@);
                    return Err(e);
                },
            };
            Ok(PlatformConfig::WhatsApp { phone_number_id: p, access_token: a })
        },
        MessagingPlatform::Teams => {
            let t = match required(tenant_id, "tenant_id") {
                Ok(v) => v,
                Err(e) => {
                    assert(e@ =~= "Missing tenant_id"@);
                    return Err(e);
                },
            };
            let c = match required(client_id, "client_id") {
                Ok(v) => v,
                Err(e) => {
                    assert(e@ =~= "Missing client_id"@);
                    return Err(e);
                },
            };
            let s = match required(client_secret, "client_secret") {
                Ok(v) => v,
                Err(e) => {
                    assert(e@ =~= "Missing client_secret"@);
                    return Err(e);
                },
            };
            Ok(PlatformConfig::Teams { tenant_id: t, client_id: c, client_secret: s })
        },
    }
}

/// A connection to a messaging platform.
#[derive(Debug)]
pub struct MessagingConnection {
    pub id: String,
    pub user_id: String,
    pub platform: MessagingPlatform,
    pub workspace_id: Option<String>,
    pub workspace_name: Option<String>,
    pub is_active: bool,
    pub created_at: i64,
    pub last_used_at: Option<i64>,
}

/// The connection recorded when a platform is connected: active, never
/// used yet. A WhatsApp connection has no workspace id and is named
/// `"WhatsApp Business"`; a Teams connection's workspace is its tenant; a
/// Slack connection keeps the workspace it was given.
pub fn new_connection(
    id: String,
    user_id: String,
    platform: MessagingPlatform,
    workspace_id: Option<String>,
    workspace_name: Option<String>,
    tenant_id: Option<String>,
    created_at: i64,
) -> (r: MessagingConnection)
    ensures
        r.id == id,
        r.user_id == user_id,
        r.platform == platform,
        r.is_active,
        r.created_at == created_at,
        r.last_used_at is None,
        match platform {
            MessagingPlatform::Slack => r.workspace_id == workspace_id && r.workspace_name
                == workspace_name,
            MessagingPlatform::WhatsApp => r.workspace_id is None && r.workspace_name.deep_view()
                == Some("WhatsApp Business"@),
            MessagingPlatform::Teams => r.workspace_id == tenant_id && r.workspace_name
                == workspace_name,
        },
{
    let (wid, wname) = match platform {
        MessagingPlatform::Slack => (workspace_id, workspace_name),
        MessagingPlatform::WhatsApp => {
            let mut n = String::new();
            append_str(&mut n, "WhatsApp Business");
            (None, Some(n))
        },
        MessagingPlatform::Teams => (tenant_id, workspace_name),
    };
    MessagingConnection {
        id,
        user_id,
        platform,
        workspace_id: wid,
        workspace_name: wname,
        is_active: true,
        created_at,
        last_used_at: None,
    }
}

} // verus!
