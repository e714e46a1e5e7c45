//! Data returned by the portal, and its decoding from parsed JSON.
//!
//! Each wire type has a specification-level image (`...V`) over sequences,
//! a spec decoder from `JsonV`, and an executable decoder proved to return
//! exactly what the spec decoder says. Field names follow the wire: the
//! list envelopes use lower camel case, search metadata uses Pascal case.

use vstd::prelude::*;

use crate::json::{
    chars_to_string, chars_to_u64, dec_val, is_u64_text, lemma_view_variant, obj_get, sv_get,
    vec_members_view, Json, JsonV,
};

verus! {

/// Metadata attached to an instance found by a search-style query.
pub struct SearchMetadata {
    pub account_id: String,
    pub account_name: String,
    pub account_email: String,
}

pub struct SearchMetadataV {
    pub account_id: Seq<char>,
    pub account_name: Seq<char>,
    pub account_email: Seq<char>,
}

impl View for SearchMetadata {
    type V = SearchMetadataV;

    open spec fn view(&self) -> SearchMetadataV {
        SearchMetadataV {
            account_id: self.account_id@,
            account_name: self.account_name@,
            account_email: self.account_email@,
        }
    }
}

/// One application registered to the identity provider.
pub struct AppInstance {
    pub id: String,
    pub name: String,
    pub description: String,
    pub application_id: String,
    pub application_name: String,
    pub icon: String,
    pub search_metadata: Option<SearchMetadata>,
}

pub struct AppInstanceV {
    pub id: Seq<char>,
    pub name: Seq<char>,
    pub description: Seq<char>,
    pub application_id: Seq<char>,
    pub application_name: Seq<char>,
    pub icon: Seq<char>,
    pub search_metadata: Option<SearchMetadataV>,
}

impl View for AppInstance {
    type V = AppInstanceV;

    open spec fn view(&self) -> AppInstanceV {
        AppInstanceV {
            id: self.id@,
            name: self.name@,
            description: self.description@,
            application_id: self.application_id@,
            application_name: self.application_name@,
            icon: self.icon@,
            search_metadata: match self.search_metadata {
                Some(m) => Some(m@),
                None => None,
            },
        }
    }
}

/// One role profile exposed under an application instance.
pub struct Profile {
    pub id: String,
    pub name: String,
    pub description: String,
    pub url: String,
    pub protocol: String,
    pub relay_state: Option<String>,
}

pub struct ProfileV {
    pub id: Seq<char>,
    pub name: Seq<char>,
    pub description: Seq<char>,
    pub url: Seq<char>,
    pub protocol: Seq<char>,
    pub relay_state: Option<Seq<char>>,
}

impl View for Profile {
    type V = ProfileV;

    open spec fn view(&self) -> ProfileV {
        ProfileV {
            id: self.id@,
            name: self.name@,
            description: self.description@,
            url: self.url@,
            protocol: self.protocol@,
            relay_state: match self.relay_state {
                Some(s) => Some(s@),
                None => None,
            },
        }
    }
}

/// A required string member.
pub open spec fn sd_str(ms: Seq<(Seq<char>, JsonV)>, key: Seq<char>) -> Option<Seq<char>> {
    match sv_get(ms, key) {
        Some(JsonV::Str(t)) => Some(t),
        _ => None,
    }
}

/// An optional string member: absent and `null` both mean "no value";
/// any other non-string value is a decode failure.
pub open spec fn sd_opt_str(ms: Seq<(Seq<char>, JsonV)>, key: Seq<char>) -> Option<
    Option<Seq<char>>,
> {
    match sv_get(ms, key) {
        None => Some(None),
        Some(JsonV::Null) => Some(None),
        Some(JsonV::Str(t)) => Some(Some(t)),
        Some(_) => None,
    }
}

/// A required unsigned integer member.
pub open spec fn sd_u64(ms: Seq<(Seq<char>, JsonV)>, key: Seq<char>) -> Option<u64> {
    match sv_get(ms, key) {
        Some(JsonV::Num(t)) => if is_u64_text(t) {
            Some(dec_val(t) as u64)
        } else {
            None
        },
        _ => None,
    }
}

pub open spec fn sd_search_metadata(j: JsonV) -> Option<SearchMetadataV> {
    match j {
        JsonV::Obj(ms) => {
            let account_id = sd_str(ms, "AccountId"@);
            let account_name = sd_str(ms, "AccountName"@);
            let account_email = sd_str(ms, "AccountEmail"@);
            if account_id is Some && account_name is Some && account_email is Some {
                Some(
                    SearchMetadataV {
                        account_id: account_id->0,
                        account_name: account_name->0,
                        account_email: account_email->0,
                    },
                )
            } else {
                None
            }
        },
        _ => None,
    }
}

pub open spec fn sd_app_instance(j: JsonV) -> Option<AppInstanceV> {
    match j {
        JsonV::Obj(ms) => {
            let id = sd_str(ms, "id"@);
            let name = sd_str(ms, "name"@);
            let description = sd_str(ms, "description"@);
            let application_id = sd_str(ms, "applicationId"@);
            let application_name = sd_str(ms, "applicationName"@);
            let icon = sd_str(ms, "icon"@);
            let sm = match sv_get(ms, "searchMetadata"@) {
                None => Some(None),
                Some(JsonV::Null) => Some(None),
                Some(smj) => match sd_search_metadata(smj) {
                    Some(m) => Some(Some(m)),
                    None => None,
                },
            };
            if id is Some && name is Some && description is Some && application_id is Some
                && application_name is Some && icon is Some && sm is Some {
                Some(
                    AppInstanceV {
                        id: id->0,
                        name: name->0,
                        description: description->0,
                        application_id: application_id->0,
                        application_name: application_name->0,
                        icon: icon->0,
                        search_metadata: sm->0,
                    },
                )
            } else {
                None
            }
        },
        _ => None,
    }
}

pub open spec fn sd_profile(j: JsonV) -> Option<ProfileV> {
    match j {
        JsonV::Obj(ms) => {
            let id = sd_str(ms, "id"@);
            let name = sd_str(ms, "name"@);
            let description = sd_str(ms, "description"@);
            let url = sd_str(ms, "url"@);
            let protocol = sd_str(ms, "protocol"@);
            let relay_state = sd_opt_str(ms, "relayState"@);
            if id is Some && name is Some && description is Some && url is Some && protocol is Some
                && relay_state is Some {
                Some(
                    ProfileV {
                        id: id->0,
                        name: name->0,
                        description: description->0,
                        url: url->0,
                        protocol: protocol->0,
                        relay_state: relay_state->0,
                    },
                )
            } else {
                None
            }
        },
        _ => None,
    }
}

pub(crate) fn get_str(ms: &Vec<(Vec<char>, Json)>, key: &str) -> (r: Option<String>)
    ensures
        match r {
            Some(s) => sd_str(vec_members_view(ms), key@) == Some(s@),
            None => sd_str(vec_members_view(ms), key@) is None,
        },
{
    match obj_get(ms, key) {
        Some(j) => match j {
            Json::Str(t) => Some(chars_to_string(t)),
            _ => {
                proof {
                    lemma_view_variant(j);
                }
                None
            },
        },
        None => None,
    }
}

pub(crate) fn get_opt_str(ms: &Vec<(Vec<char>, Json)>, key: &str) -> (r: Option<Option<String>>)
    ensures
        match r {
            Some(Some(s)) => sd_opt_str(vec_members_view(ms), key@) == Some(Some(s@)),
            Some(None) => sd_opt_str(vec_members_view(ms), key@) == Some(
                None::<Seq<char>>,
            ),
            None => sd_opt_str(vec_members_view(ms), key@) is None,
        },
{
    match obj_get(ms, key) {
        None => Some(None),
        Some(j) => match j {
            Json::Null => Some(None),
            Json::Str(t) => Some(Some(chars_to_string(t))),
            _ => {
                proof {
                    lemma_view_variant(j);
                }
                None
            },
        },
    }
}

pub(crate) fn get_u64(ms: &Vec<(Vec<char>, Json)>, key: &str) -> (r: Option<u64>)
    ensures
        match r {
            Some(n) => sd_u64(vec_members_view(ms), key@) == Some(n),
            None => sd_u64(vec_members_view(ms), key@) is None,
        },
{
    match obj_get(ms, key) {
        Some(j) => match j {
            Json::Num(t) => chars_to_u64(t),
            _ => {
                proof {
                    lemma_view_variant(j);
                }
                None
            },
        },
        None => None,
    }
}

pub fn decode_search_metadata(j: &Json) -> (r: Option<SearchMetadata>)
    ensures
        match r {
            Some(m) => sd_search_metadata(j@) == Some(m@),
            None => sd_search_metadata(j@) is None,
        },
{
    match j {
        Json::Obj(ms) => {
            let account_id = get_str(ms, "AccountId");
            let account_name = get_str(ms, "AccountName");
            let account_email = get_str(ms, "AccountEmail");
            match (account_id, account_name, account_email) {
                (Some(account_id), Some(account_name), Some(account_email)) => Some(
                    SearchMetadata { account_id, account_name, account_email },
                ),
                _ => None,
            }
        },
        _ => {
            proof {
                lemma_view_variant(j);
            }
            None
        },
    }
}

pub fn decode_app_instance(j: &Json) -> (r: Option<AppInstance>)
    ensures
        match r {
            Some(a) => sd_app_instance(j@) == Some(a@),
            None => sd_app_instance(j@) is None,
        },
{
    match j {
        Json::Obj(ms) => {
            let id = get_str(ms, "id");
            let name = get_str(ms, "name");
            let description = get_str(ms, "description");
            let application_id = get_str(ms, "applicationId");
            let application_name = get_str(ms, "applicationName");
            let icon = get_str(ms, "icon");
            let sm: Option<Option<SearchMetadata>> = match obj_get(ms, "searchMetadata") {
                None => Some(None),
                Some(smj) => match smj {
                    Json::Null => Some(None),
                    _ => {
                        proof {
                            lemma_view_variant(smj);
                        }
                        match decode_search_metadata(smj) {
                            Some(m) => Some(Some(m)),
                            None => None,
                        }
                    },
                },
            };
            match (id, name, description, application_id, application_name, icon, sm) {
                (
                    Some(id),
                    Some(name),
                    Some(description),
                    Some(application_id),
                    Some(application_name),
                    Some(icon),
                    Some(search_metadata),
                ) => Some(
                    AppInstance {
                        id,
                        name,
                        description,
                        application_id,
                        application_name,
                        icon,
                        search_metadata,
                    },
                ),
                _ => None,
            }
        },
        _ => {
            proof {
                lemma_view_variant(j);
            }
            None
        },
    }
}

pub fn decode_profile(j: &Json) -> (r: Option<Profile>)
    ensures
        match r {
            Some(p) => sd_profile(j@) == Some(p@),
            None => sd_profile(j@) is None,
        },
{
    match j {
        Json::Obj(ms) => {
            let id = get_str(ms, "id");
            let name = get_str(ms, "name");
            let description = get_str(ms, "description");
            let url = get_str(ms, "url");
            let protocol = get_str(ms, "protocol");
            let relay_state = get_opt_str(ms, "relayState");
            match (id, name, description, url, protocol, relay_state) {
                (
                    Some(id),
                    Some(name),
                    Some(description),
                    Some(url),
                    Some(protocol),
                    Some(relay_state),
                ) => Some(Profile { id, name, description, url, protocol, relay_state }),
                _ => None,
            }
        },
        _ => {
            proof {
                lemma_view_variant(j);
            }
            None
        },
    }
}

} // verus!
