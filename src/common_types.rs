//! References, metadata and the secure value type that the vault holds.

use vstd::prelude::*;

use secret_vault_value::SecretValue;

verus! {

/// The unique name of a secret.
#[derive(Debug, Clone, Eq, PartialEq, Hash)]
pub struct SecretName(pub String);

/// One version of a secret.
#[derive(Debug, Clone, Eq, PartialEq, Hash)]
pub struct SecretVersion(pub String);

/// The identity of a reference: its name and optional version.
pub type SecretRefKey = (Seq<char>, Option<Seq<char>>);

impl SecretName {
    pub fn new(name: String) -> (r: Self)
        ensures
            r.0@ == name@,
    {
        SecretName(name)
    }

    pub fn value(&self) -> (r: &String)
        ensures
            r@ == self.0@,
    {
        &self.0
    }

    /// A copy that holds the same characters.
    pub fn duplicate(&self) -> (r: Self)
        ensures
            r.0@ == self.0@,
    {
        SecretName(self.0.clone())
    }
}

impl SecretVersion {
    pub fn new(version: String) -> (r: Self)
        ensures
            r.0@ == version@,
    {
        SecretVersion(version)
    }

    pub fn value(&self) -> (r: &String)
        ensures
            r@ == self.0@,
    {
        &self.0
    }

    /// A copy that holds the same characters.
    pub fn duplicate(&self) -> (r: Self)
        ensures
            r.0@ == self.0@,
    {
        SecretVersion(self.0.clone())
    }
}

/// The characters of an optional version.
pub open spec fn version_view(v: Option<SecretVersion>) -> Option<Seq<char>> {
    match v {
        Some(s) => Some(s.0@),
        None => None,
    }
}

/// A reference to a secret: its identity and whether a refresh must find it.
#[derive(Debug, Clone, Eq, PartialEq, Hash)]
pub struct SecretVaultRef {
    pub secret_name: SecretName,
    pub secret_version: Option<SecretVersion>,
    pub required: bool,
}

impl SecretVaultRef {
    /// The identity used for lookups: name and version, not `required`.
    pub open spec fn key(&self) -> SecretRefKey {
        (self.secret_name.0@, version_view(self.secret_version))
    }

    /// A required reference to the latest version of `secret_name`.
    pub fn new(secret_name: SecretName) -> (r: Self)
        ensures
            r.secret_name == secret_name,
            r.secret_version is None,
            r.required,
    {
        SecretVaultRef { secret_name, secret_version: None, required: true }
    }

    pub fn with_secret_version(self, version: SecretVersion) -> (r: Self)
        ensures
            r.secret_name == self.secret_name,
            r.secret_version == Some(version),
            r.required == self.required,
    {
        SecretVaultRef { secret_version: Some(version), ..self }
    }

    pub fn with_required(self, required: bool) -> (r: Self)
        ensures
            r.secret_name == self.secret_name,
            r.secret_version == self.secret_version,
            r.required == required,
    {
        SecretVaultRef { required, ..self }
    }

    /// A copy with the same identity and policy.
    pub fn duplicate(&self) -> (r: Self)
        ensures
            r.key() == self.key(),
            r.required == self.required,
    {
        let secret_version = match &self.secret_version {
            Some(v) => Some(v.duplicate()),
            None => None,
        };
        SecretVaultRef { secret_name: self.secret_name.duplicate(), secret_version, required: self.required }
    }

    /// Whether two references name the same secret and version.
    pub fn same_identity(&self, other: &SecretVaultRef) -> (r: bool)
        ensures
            r == (self.key() == other.key()),
    {
        if self.secret_name.0 != other.secret_name.0 {
            return false;
        }
        match (&self.secret_version, &other.secret_version) {
            (Some(a), Some(b)) => a.0 == b.0,
            (None, None) => true,
            _ => false,
        }
    }
}

/// The characters of a label: its name and optional value.
pub open spec fn label_view(l: SecretMetadataLabel) -> (Seq<char>, Option<Seq<char>>) {
    (
        l.name@,
        match l.value {
            Some(v) => Some(v@),
            None => None,
        },
    )
}

/// Metadata as plain values: labels, description, expiry and version.
pub type SecretMetadataView = (
    Option<Seq<(Seq<char>, Option<Seq<char>>)>>,
    Option<Seq<char>>,
    Option<i64>,
    Option<Seq<char>>,
);

/// The plain values of metadata.
pub open spec fn metadata_view(m: SecretMetadata) -> SecretMetadataView {
    (
        match m.labels {
            Some(v) => Some(v@.map_values(|l: SecretMetadataLabel| label_view(l))),
            None => None,
        },
        match m.description {
            Some(d) => Some(d@),
            None => None,
        },
        m.expire_at,
        version_view(m.version),
    )
}

/// A free-form tag on a secret.
#[derive(Debug, Clone, Eq, PartialEq, Hash)]
pub struct SecretMetadataLabel {
    pub name: String,
    pub value: Option<String>,
}

impl SecretMetadataLabel {
    pub fn new(name: String) -> (r: Self)
        ensures
            r.name == name,
            r.value is None,
    {
        SecretMetadataLabel { name, value: None }
    }

    /// A copy with the same characters.
    pub fn duplicate(&self) -> (r: Self)
        ensures
            label_view(r) == label_view(*self),
    {
        let value = match &self.value {
            Some(v) => Some(v.clone()),
            None => None,
        };
        SecretMetadataLabel { name: self.name.clone(), value }
    }

    pub fn with_value(self, value: String) -> (r: Self)
        ensures
            r.name == self.name,
            r.value == Some(value),
    {
        SecretMetadataLabel { value: Some(value), ..self }
    }
}

/// What is known of a secret besides its value; informational only.
/// `expire_at` is in seconds since the Unix epoch, UTC.
#[derive(Debug, Clone, Eq, PartialEq)]
pub struct SecretMetadata {
    pub labels: Option<Vec<SecretMetadataLabel>>,
    pub description: Option<String>,
    pub expire_at: Option<i64>,
    pub version: Option<SecretVersion>,
}

impl SecretMetadata {
    /// Metadata with nothing set.
    pub fn new() -> (r: Self)
        ensures
            r.labels is None,
            r.description is None,
            r.expire_at is None,
            r.version is None,
    {
        SecretMetadata { labels: None, description: None, expire_at: None, version: None }
    }

    /// A copy with the same plain values.
    pub fn duplicate(&self) -> (r: Self)
        ensures
            metadata_view(r) == metadata_view(*self),
    {
        let labels = match &self.labels {
            Some(v) => {
                let mut out: Vec<SecretMetadataLabel> = Vec::new();
                let mut i: usize = 0;
                while i < v.len()
                    invariant
                        i <= v@.len(),
                        out@.len() == i,
                        forall|j: int| 0 <= j < i ==> label_view(#[trigger] out@[j]) == label_view(v@[j]),
                    decreases v@.len() - i,
                {
                    out.push(v[i].duplicate());
                    i = i + 1;
                }
                proof {
                    assert(out@.map_values(|l: SecretMetadataLabel| label_view(l)) =~= v@.map_values(
                        |l: SecretMetadataLabel| label_view(l),
                    ));
                }
                Some(out)
            },
            None => None,
        };
        let description = match &self.description {
            Some(d) => Some(d.clone()),
            None => None,
        };
        let version = match &self.version {
            Some(v) => Some(v.duplicate()),
            None => None,
        };
        SecretMetadata { labels, description, expire_at: self.expire_at, version }
    }

    pub fn with_labels(self, labels: Vec<SecretMetadataLabel>) -> (r: Self)
        ensures
            r == (SecretMetadata { labels: Some(labels), ..self }),
    {
        SecretMetadata { labels: Some(labels), ..self }
    }

    pub fn with_description(self, description: String) -> (r: Self)
        ensures
            r == (SecretMetadata { description: Some(description), ..self }),
    {
        SecretMetadata { description: Some(description), ..self }
    }

    /// Sets the expiry, in seconds since the Unix epoch.
    pub fn with_expire_at(self, expire_at: i64) -> (r: Self)
        ensures
            r == (SecretMetadata { expire_at: Some(expire_at), ..self }),
    {
        SecretMetadata { expire_at: Some(expire_at), ..self }
    }

    pub fn with_version(self, version: SecretVersion) -> (r: Self)
        ensures
            r == (SecretMetadata { version: Some(version), ..self }),
    {
        SecretMetadata { version: Some(version), ..self }
    }
}

/// A value together with its metadata.
#[derive(Debug, Clone, Eq, PartialEq)]
pub struct Secret {
    pub value: SecretValue,
    pub metadata: SecretMetadata,
}

impl Secret {
    pub fn new(value: SecretValue, metadata: SecretMetadata) -> (r: Self)
        ensures
            r.value == value,
            r.metadata == metadata,
    {
        Secret { value, metadata }
    }
}

} // verus!
