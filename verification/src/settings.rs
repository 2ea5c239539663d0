use vstd::prelude::*;
use crate::error::StoreError;
use crate::rows::{Settings, SettingsUpdate};
use crate::store::Workspace;
use crate::vault::{decrypt_string, encrypt_string, vault_decrypt_spec, vault_opens_to};

verus! {

impl Workspace {
    /// Nothing outside the settings row changed.
    pub open spec fn same_but_settings(self, other: Workspace) -> bool {
        &&& self.categories@ == other.categories@
        &&& self.defs@ == other.defs@
        &&& self.prompts@ == other.prompts@
        &&& self.folders@ == other.folders@
        &&& self.docs@ == other.docs@
        &&& self.outputs@ == other.outputs@
    }

    /// Creates the settings singleton at first startup; a later run finds
    /// it present and leaves it exactly as it is.
    pub fn ensure_settings(&mut self, now: i64)
        requires
            old(self).wf(),
        ensures
            final(self).wf(),
            old(self).same_but_settings(*final(self)),
            old(self).settings is Some ==> *final(self) == *old(self),
            old(self).settings is None ==> match final(self).settings {
                Option::Some(row) => {
                    &&& row.id@ == "default"@
                    &&& row.api_key_encrypted is None
                    &&& row.username is None
                    &&& row.name is None
                    &&& row.surname is None
                    &&& row.job_title is None
                    &&& row.company is None
                    &&& row.company_url is None
                    &&& row.profile_pic is None
                    &&& row.about_me is None
                    &&& row.about_role is None
                    &&& row.created_at == now
                    &&& row.updated_at == now
                },
                Option::None => false,
            },
    {
        if self.settings.is_none() {
            self.settings = Some(
                Settings {
                    id: String::from_str("default"),
                    api_key_encrypted: None,
                    username: None,
                    name: None,
                    surname: None,
                    job_title: None,
                    company: None,
                    company_url: None,
                    profile_pic: None,
                    about_me: None,
                    about_role: None,
                    created_at: now,
                    updated_at: now,
                },
            );
        }
    }

    /// The settings singleton; it must have been created at startup.
    pub fn get_settings(&self) -> (r: Result<Settings, StoreError>)
        ensures
            match r {
                Ok(row) => self.settings == Option::Some(row),
                Err(e) => e == StoreError::SettingsMissing && self.settings is None,
            },
    {
        match &self.settings {
            Some(s) => Ok(s.clone()),
            None => Err(StoreError::SettingsMissing),
        }
    }

    /// Partially updates the settings: every omitted field keeps its
    /// previous value. A new API key is encrypted under the vault key
    /// before it is stored; an empty API key is ignored, and the stored
    /// encrypted key then stays as it was.
    pub fn update_settings(&mut self, upd: SettingsUpdate, key: &Vec<u8>, now: i64) -> (r: Result<
        Settings,
        StoreError,
    >)
        requires
            old(self).wf(),
            key@.len() == 32,
        ensures
            final(self).wf(),
            old(self).same_but_settings(*final(self)),
            match r {
                Ok(row) => {
                    &&& old(self).settings is Some
                    &&& {
                        let prev = old(self).settings->Some_0;
                        &&& final(self).settings == Option::Some(row)
                        &&& row.id == prev.id
                        &&& (match upd.api_key {
                            Option::None => row.api_key_encrypted == prev.api_key_encrypted,
                            Option::Some(k) => {
                                if k@.len() == 0 {
                                    row.api_key_encrypted == prev.api_key_encrypted
                                } else {
                                    match row.api_key_encrypted {
                                        Option::Some(c) => vault_opens_to(c@, key@)
                                            == Option::Some(k@),
                                        Option::None => false,
                                    }
                                }
                            },
                        })
                        &&& row.username == (match upd.username {
                            Option::Some(v) => Option::Some(v),
                            Option::None => prev.username,
                        })
                        &&& row.name == (match upd.name {
                            Option::Some(v) => Option::Some(v),
                            Option::None => prev.name,
                        })
                        &&& row.surname == (match upd.surname {
                            Option::Some(v) => Option::Some(v),
                            Option::None => prev.surname,
                        })
                        &&& row.job_title == (match upd.job_title {
                            Option::Some(v) => Option::Some(v),
                            Option::None => prev.job_title,
                        })
                        &&& row.company == (match upd.company {
                            Option::Some(v) => Option::Some(v),
                            Option::None => prev.company,
                        })
                        &&& row.company_url == (match upd.company_url {
                            Option::Some(v) => Option::Some(v),
                            Option::None => prev.company_url,
                        })
                        &&& row.profile_pic == (match upd.profile_pic {
                            Option::Some(v) => Option::Some(v),
                            Option::None => prev.profile_pic,
                        })
                        &&& row.about_me == (match upd.about_me {
                            Option::Some(v) => Option::Some(v),
                            Option::None => prev.about_me,
                        })
                        &&& row.about_role == (match upd.about_role {
                            Option::Some(v) => Option::Some(v),
                            Option::None => prev.about_role,
                        })
                        &&& row.created_at == prev.created_at
                        &&& row.updated_at == now
                    }
                },
                Err(e) => {
                    &&& *final(self) == *old(self)
                    &&& match e {
                        StoreError::SettingsMissing => old(self).settings is None,
                        StoreError::EncryptFailed => old(self).settings is Some && (
                        match upd.api_key {
                            Option::Some(k) => k@.len() > 0,
                            Option::None => false,
                        }),
                        _ => false,
                    }
                },
            },
    {
        let prev = match &self.settings {
            Some(s) => s.clone(),
            None => {
                return Err(StoreError::SettingsMissing);
            },
        };
        let api_key_encrypted: Option<String> = match &upd.api_key {
            Some(k) => {
                if k.as_str().is_empty() {
                    crate::rows::clone_opt_string(&prev.api_key_encrypted)
                } else {
                    match encrypt_string(k.as_str(), key) {
                        Ok(c) => Some(c),
                        Err(_) => {
                            return Err(StoreError::EncryptFailed);
                        },
                    }
                }
            },
            None => crate::rows::clone_opt_string(&prev.api_key_encrypted),
        };
        let row = Settings {
            id: prev.id,
            api_key_encrypted,
            username: match upd.username {
                Some(v) => Some(v),
                None => prev.username,
            },
            name: match upd.name {
                Some(v) => Some(v),
                None => prev.name,
            },
            surname: match upd.surname {
                Some(v) => Some(v),
                None => prev.surname,
            },
            job_title: match upd.job_title {
                Some(v) => Some(v),
                None => prev.job_title,
            },
            company: match upd.company {
                Some(v) => Some(v),
                None => prev.company,
            },
            company_url: match upd.company_url {
                Some(v) => Some(v),
                None => prev.company_url,
            },
            profile_pic: match upd.profile_pic {
                Some(v) => Some(v),
                None => prev.profile_pic,
            },
            about_me: match upd.about_me {
                Some(v) => Some(v),
                None => prev.about_me,
            },
            about_role: match upd.about_role {
                Some(v) => Some(v),
                None => prev.about_role,
            },
            created_at: prev.created_at,
            updated_at: now,
        };
        let copy = row.clone();
        self.settings = Some(row);
        Ok(copy)
    }

    /// The decrypted API key: absent when none is stored, otherwise the
    /// plaintext the stored ciphertext opens to under the vault key, or
    /// the exact stage at which decryption failed.
    pub fn get_decrypted_api_key(&self, key: &Vec<u8>) -> (r: Result<Option<String>, StoreError>)
        requires
            key@.len() == 32,
        ensures
            match r {
                Ok(opt) => self.settings is Some && (
                match self.settings->Some_0.api_key_encrypted {
                    Option::None => opt is None,
                    Option::Some(c) => match opt {
                        Option::Some(pt) => vault_decrypt_spec(c@, key@) == Result::<
                            Seq<char>,
                            StoreError,
                        >::Ok(pt@),
                        Option::None => false,
                    },
                }),
                Err(e) => {
                    if self.settings is None {
                        e == StoreError::SettingsMissing
                    } else {
                        match self.settings->Some_0.api_key_encrypted {
                            Option::Some(c) => vault_decrypt_spec(c@, key@) == Result::<
                                Seq<char>,
                                StoreError,
                            >::Err(e),
                            Option::None => false,
                        }
                    }
                },
            },
    {
        let s = match &self.settings {
            Some(s) => s,
            None => {
                return Err(StoreError::SettingsMissing);
            },
        };
        match &s.api_key_encrypted {
            None => Ok(None),
            Some(c) => {
                match decrypt_string(c.as_str(), key) {
                    Ok(pt) => Ok(Some(pt)),
                    Err(e) => Err(e),
                }
            },
        }
    }

    /// Clears the stored encrypted API key, leaving every other settings
    /// field as it was; without a settings row there is nothing to clear.
    pub fn delete_api_key(&mut self, now: i64) -> (r: Result<(), StoreError>)
        requires
            old(self).wf(),
        ensures
            final(self).wf(),
            old(self).same_but_settings(*final(self)),
            r is Ok,
            old(self).settings is None ==> *final(self) == *old(self),
            old(self).settings is Some ==> match final(self).settings {
                Option::Some(row) => {
                    let prev = old(self).settings->Some_0;
                    &&& row.api_key_encrypted is None
                    &&& row.updated_at == now
                    &&& row.id == prev.id
                    &&& row.username == prev.username
                    &&& row.name == prev.name
                    &&& row.surname == prev.surname
                    &&& row.job_title == prev.job_title
                    &&& row.company == prev.company
                    &&& row.company_url == prev.company_url
                    &&& row.profile_pic == prev.profile_pic
                    &&& row.about_me == prev.about_me
                    &&& row.about_role == prev.about_role
                    &&& row.created_at == prev.created_at
                },
                Option::None => false,
            },
    {
        match &self.settings {
            None => Ok(()),
            Some(_) => {
                let prev = match self.settings.take() {
                    Some(s) => s,
                    None => {
                        return Ok(());
                    },
                };
                let row = Settings { api_key_encrypted: None, updated_at: now, ..prev };
                self.settings = Some(row);
                Ok(())
            },
        }
    }
}

} // verus!
