use vstd::prelude::*;

verus! {

/// The expected, caller-recoverable failures of the store and of the vault.
/// Storage faults (disk, permissions) never arise here: the store is an
/// in-memory state machine and persistence lives outside the library.
#[derive(Clone, Copy, Debug, PartialEq, Eq, Structural)]
pub enum StoreError {
    /// The id named by the call does not exist.
    NotFound,
    /// A freshly derived id would collide with an existing row.
    DuplicateId,
    /// The row is builtin and may not be deleted.
    ProtectedEntity,
    /// The category still has framework definitions attached.
    CatalogNotEmpty,
    /// Reset was asked of a row that is not builtin.
    NotBuiltin,
    /// No bundled seed entry carries the row's id.
    SeedNotFound,
    /// The item kind is neither a context document nor a framework output.
    InvalidItemKind,
    /// The parent reassignment would make a folder its own ancestor.
    CycleDetected,
    /// The settings row has not been created yet.
    SettingsMissing,
    /// The cipher refused to encrypt.
    EncryptFailed,
    /// The stored ciphertext is not valid base64 or is too short.
    Base64Malformed,
    /// The authentication tag did not match.
    DecryptFailed,
    /// The decrypted bytes are not valid UTF-8.
    NotUtf8,
}

/// The description each failure carries.
pub open spec fn message_spec(e: StoreError) -> Seq<char> {
    match e {
        StoreError::NotFound => "entry not found"@,
        StoreError::DuplicateId => "an entry with this id already exists"@,
        StoreError::ProtectedEntity => "cannot delete built-in entries"@,
        StoreError::CatalogNotEmpty => "cannot delete a category that still has frameworks"@,
        StoreError::NotBuiltin => "can only reset built-in frameworks"@,
        StoreError::SeedNotFound => "no seed data found for this id"@,
        StoreError::InvalidItemKind => "unknown item type"@,
        StoreError::CycleDetected => "moving the folder here would create a cycle"@,
        StoreError::SettingsMissing => "settings have not been initialized"@,
        StoreError::EncryptFailed => "encryption failed"@,
        StoreError::Base64Malformed => "base64 decode failed"@,
        StoreError::DecryptFailed => "decryption failed"@,
        StoreError::NotUtf8 => "utf-8 conversion failed"@,
    }
}

impl StoreError {
    /// A human-readable description, in place of a `Display` impl.
    pub fn message(&self) -> (r: String)
        ensures
            r@ == message_spec(*self),
    {
        match self {
            StoreError::NotFound => String::from_str("entry not found"),
            StoreError::DuplicateId => String::from_str("an entry with this id already exists"),
            StoreError::ProtectedEntity => String::from_str("cannot delete built-in entries"),
            StoreError::CatalogNotEmpty => String::from_str(
                "cannot delete a category that still has frameworks",
            ),
            StoreError::NotBuiltin => String::from_str("can only reset built-in frameworks"),
            StoreError::SeedNotFound => String::from_str("no seed data found for this id"),
            StoreError::InvalidItemKind => String::from_str("unknown item type"),
            StoreError::CycleDetected => String::from_str(
                "moving the folder here would create a cycle",
            ),
            StoreError::SettingsMissing => String::from_str("settings have not been initialized"),
            StoreError::EncryptFailed => String::from_str("encryption failed"),
            StoreError::Base64Malformed => String::from_str("base64 decode failed"),
            StoreError::DecryptFailed => String::from_str("decryption failed"),
            StoreError::NotUtf8 => String::from_str("utf-8 conversion failed"),
        }
    }
}

} // verus!
