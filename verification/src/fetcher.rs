//! The engine's entry point: the identity it signs with, the client that an
//! operation is bound to, and the region of a bucket.

use vstd::prelude::*;
use crate::account::Account;
use crate::error::{EngineError, EngineErrorView};
use crate::text::optional_text;

verus! {

/// Handles the interactions with the storage service for one identity.
#[derive(Debug)]
pub struct S3DataFetcher {
    pub default_region: String,
    pub access_key: String,
    pub secret_key: String,
}

/// What an [`S3DataFetcher`] holds, as plain values.
pub struct S3DataFetcherView {
    pub default_region: Seq<char>,
    pub access_key: Seq<char>,
    pub secret_key: Seq<char>,
}

impl View for S3DataFetcher {
    type V = S3DataFetcherView;

    open spec fn view(&self) -> S3DataFetcherView {
        S3DataFetcherView {
            default_region: self.default_region@,
            access_key: self.access_key@,
            secret_key: self.secret_key@,
        }
    }
}

impl Clone for S3DataFetcher {
    fn clone(&self) -> (copy: Self)
        ensures
            copy == *self,
    {
        S3DataFetcher {
            default_region: self.default_region.clone(),
            access_key: self.access_key.clone(),
            secret_key: self.secret_key.clone(),
        }
    }
}

/// An identity given for a single operation, with the region to bind to.
#[derive(Debug)]
pub struct FileCredential {
    pub name: String,
    pub access_key: String,
    pub secret_key: String,
    pub default_region: String,
    pub selected: bool,
}

/// What a client is made of: a static pair of keys, the label that says where
/// the pair came from, and the region that the client is bound to.
#[derive(Debug)]
pub struct ClientSettings {
    pub access_key: String,
    pub secret_key: String,
    pub source: String,
    pub region: String,
}

/// What a [`ClientSettings`] holds, as plain values.
pub struct ClientSettingsView {
    pub access_key: Seq<char>,
    pub secret_key: Seq<char>,
    pub source: Seq<char>,
    pub region: Seq<char>,
}

impl View for ClientSettings {
    type V = ClientSettingsView;

    open spec fn view(&self) -> ClientSettingsView {
        ClientSettingsView {
            access_key: self.access_key@,
            secret_key: self.secret_key@,
            source: self.source@,
            region: self.region@,
        }
    }
}

/// The region of last resort.
pub open spec fn last_resort_region() -> Seq<char> {
    "eu-north-1"@
}

/// The region that a client is bound to: the region asked for, else the
/// session's default region, else the region of last resort. A region that is
/// absent or empty is passed over.
pub open spec fn selected_region(target: Option<Seq<char>>, session_default: Seq<char>) -> Seq<
    char,
> {
    if target is Some && target->0.len() > 0 {
        target->0
    } else if session_default.len() > 0 {
        session_default
    } else {
        last_resort_region()
    }
}

/// The region of a bucket: the location constraint that the service reports,
/// or the caller's default region where it reports none.
pub open spec fn resolved_region(constraint: Option<Seq<char>>, default_region: Seq<char>) -> Seq<
    char,
> {
    match constraint {
        Some(region) => region,
        None => default_region,
    }
}

/// The settings of the client for one operation. An identity given for the
/// operation comes first, then the identity selected in the store, then the
/// identity that the fetcher was made with.
pub open spec fn client_settings(
    fetcher: S3DataFetcherView,
    given: Option<(Seq<char>, Seq<char>)>,
    stored: Option<(Seq<char>, Seq<char>)>,
    target_region: Option<Seq<char>>,
) -> ClientSettingsView {
    let region = selected_region(target_region, fetcher.default_region);
    match given {
        Some(keys) => ClientSettingsView {
            access_key: keys.0,
            secret_key: keys.1,
            source: "account_struct"@,
            region,
        },
        None => match stored {
            Some(keys) => ClientSettingsView {
                access_key: keys.0,
                secret_key: keys.1,
                source: "db_account"@,
                region,
            },
            None => ClientSettingsView {
                access_key: fetcher.access_key,
                secret_key: fetcher.secret_key,
                source: "db_account"@,
                region,
            },
        },
    }
}

/// The pair of keys of an optional account.
pub open spec fn account_keys(account: Option<Account>) -> Option<(Seq<char>, Seq<char>)> {
    match account {
        Some(account) => Some((account.access_key@, account.secret_key@)),
        None => None,
    }
}

/// The region that a client is bound to, as [`selected_region`] states it.
pub fn select_region(target: Option<&str>, session_default: &str) -> (region: String)
    ensures
        region@ == selected_region(
            match target {
                Some(target) => Some(target@),
                None => None,
            },
            session_default@,
        ),
{
    match target {
        Some(target) => {
            if !target.is_empty() {
                return target.to_owned();
            }
        },
        None => {},
    }
    if !session_default.is_empty() {
        session_default.to_owned()
    } else {
        "eu-north-1".to_owned()
    }
}

impl S3DataFetcher {
    /// The fetcher for the account that the store marks as the default one;
    /// none where the store has no such account.
    pub fn from_db_account(default_account: Option<Account>) -> (fetcher: Option<Self>)
        ensures
            fetcher is Some == default_account is Some,
            fetcher is Some ==> fetcher->0@ == (S3DataFetcherView {
                default_region: default_account->0.default_region@,
                access_key: default_account->0.access_key@,
                secret_key: default_account->0.secret_key@,
            }),
    {
        match default_account {
            Some(account) => Some(
                S3DataFetcher {
                    default_region: account.default_region,
                    access_key: account.access_key,
                    secret_key: account.secret_key,
                },
            ),
            None => None,
        }
    }

    /// The fetcher for the default account of the store, or the failure that
    /// no account is configured.
    pub fn for_account(default_account: Option<Account>) -> (fetcher: Result<Self, EngineError>)
        ensures
            fetcher is Ok == default_account is Some,
            fetcher is Ok ==> fetcher->Ok_0@ == (S3DataFetcherView {
                default_region: default_account->0.default_region@,
                access_key: default_account->0.access_key@,
                secret_key: default_account->0.secret_key@,
            }),
            fetcher is Err ==> fetcher->Err_0@ == EngineErrorView::NoAccountConfigured,
    {
        match S3DataFetcher::from_db_account(default_account) {
            Some(fetcher) => Ok(fetcher),
            None => Err(EngineError::NoAccountConfigured),
        }
    }

    /// The settings of the client for one operation. `account` is the
    /// identity selected in the session, `stored` the default account of the
    /// store, which counts only where the session has selected none, and
    /// `target_region` the region that the operation must reach.
    pub fn get_s3_client_with_account(
        &self,
        account: Option<Account>,
        stored: Option<Account>,
        target_region: Option<&str>,
    ) -> (settings: ClientSettings)
        ensures
            settings@ == client_settings(
                self@,
                account_keys(account),
                account_keys(stored),
                match target_region {
                    Some(target) => Some(target@),
                    None => None,
                },
            ),
    {
        let region = select_region(target_region, self.default_region.as_str());
        match account {
            Some(account) => ClientSettings {
                access_key: account.access_key,
                secret_key: account.secret_key,
                source: "account_struct".to_owned(),
                region,
            },
            None => match stored {
                Some(account) => ClientSettings {
                    access_key: account.access_key,
                    secret_key: account.secret_key,
                    source: "db_account".to_owned(),
                    region,
                },
                None => ClientSettings {
                    access_key: self.access_key.clone(),
                    secret_key: self.secret_key.clone(),
                    source: "db_account".to_owned(),
                    region,
                },
            },
        }
    }

    /// The settings of the client for an identity given by hand, bound to that
    /// identity's region; without one, the client of the fetcher's own
    /// identity and region.
    pub fn get_s3_client(&self, creds: Option<FileCredential>) -> (settings: ClientSettings)
        ensures
            settings@ == match creds {
                Some(creds) => ClientSettingsView {
                    access_key: creds.access_key@,
                    secret_key: creds.secret_key@,
                    source: "manual"@,
                    region: selected_region(Some(creds.default_region@), self.default_region@),
                },
                None => client_settings(self@, None, None, None),
            },
    {
        match creds {
            Some(creds) => {
                let region = select_region(
                    Some(creds.default_region.as_str()),
                    self.default_region.as_str(),
                );
                ClientSettings {
                    access_key: creds.access_key,
                    secret_key: creds.secret_key,
                    source: "manual".to_owned(),
                    region,
                }
            },
            None => self.get_s3_client_with_account(None, None, None),
        }
    }

    /// The region of a bucket, from what the service answered to the query for
    /// its location: the location constraint, the fetcher's default region
    /// where the answer holds none, and the failure where the query failed.
    pub fn get_bucket_location(&self, answer: Result<Option<String>, String>) -> (region: Result<
        String,
        EngineError,
    >)
        ensures
            answer == Ok::<Option<String>, String>(None) ==> region is Ok && region->Ok_0@
                == self.default_region@,
            match answer {
                Ok(constraint) => region is Ok && region->Ok_0@ == resolved_region(
                    optional_text(constraint),
                    self.default_region@,
                ),
                Err(message) => region is Err && region->Err_0@ == (EngineErrorView::Protocol {
                    message: message@,
                }),
            },
    {
        match answer {
            Ok(Some(constraint)) => Ok(constraint),
            Ok(None) => Ok(self.default_region.clone()),
            Err(message) => Err(EngineError::Protocol { message }),
        }
    }
}

} // verus!
