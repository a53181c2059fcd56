//! The TLS-related schema declarations: ACME certificate providers,
//! manually managed certificates, and server-wide TLS options.

use vstd::prelude::*;
use crate::builder::Builder;
use crate::schema::{Transformer, Validator, Type, TypeModel, ConditionModel, FieldModel,
    FormSectionModel, Schema, SchemaModel, Schemas};

verus! {

/// Shorthand for a field model.
pub open spec fn fmodel(
    id: Seq<char>,
    label: Seq<char>,
    help: Seq<char>,
    placeholder: Seq<char>,
    typ: TypeModel,
    transformers: Seq<Transformer>,
    validators: Seq<Validator>,
    default: Option<Seq<char>>,
    display_if: Option<ConditionModel>,
) -> FieldModel {
    FieldModel {
        id,
        label,
        help,
        placeholder,
        typ,
        transformers,
        validators,
        default,
        display_if,
    }
}

/// Shorthand for a display condition.
pub open spec fn cond(field: Seq<char>, values: Seq<Seq<char>>) -> Option<ConditionModel> {
    Some(ConditionModel { field, values })
}

/// The ACME provider schema.
pub open spec fn acme_schema_model() -> SchemaModel {
    SchemaModel {
        key: "acme"@,
        name_singular: "ACME provider"@,
        name_plural: "ACME providers"@,
        prefix: "acme"@,
        suffix: "directory"@,
        reload_prefix: Seq::empty(),
        fields: seq![
            fmodel(
                "_id"@,
                "Directory Id"@,
                "Unique identifier for the ACME provider"@,
                Seq::empty(),
                TypeModel::Input,
                seq![Transformer::Trim],
                seq![Validator::Required],
                None,
                None,
            ),
            fmodel(
                "directory"@,
                "Directory URL"@,
                "The URL of the ACME directory endpoint"@,
                Seq::empty(),
                TypeModel::Input,
                seq![Transformer::Trim],
                seq![Validator::Required, Validator::IsUrl],
                Some("https://acme-v02.api.letsencrypt.org/directory"@),
                None,
            ),
            fmodel(
                "domains"@,
                "Subject names"@,
                "Hostnames covered by this ACME manager"@,
                Seq::empty(),
                TypeModel::Array,
                seq![Transformer::Trim],
                seq![Validator::Required],
                None,
                None,
            ),
            fmodel(
                "default"@,
                "Default provider"@,
                "Whether the certificates generated by this provider should be the default when no SNI is provided"@,
                Seq::empty(),
                TypeModel::Boolean,
                Seq::empty(),
                Seq::empty(),
                None,
                None,
            ),
            fmodel(
                "contact"@,
                "Contact Email"@,
                "the contact email address, which is used for important communications regarding your ACME account and certificates"@,
                Seq::empty(),
                TypeModel::Array,
                seq![Transformer::Trim],
                seq![Validator::Required, Validator::IsEmail],
                None,
                None,
            ),
            fmodel(
                "renew-before"@,
                "Renew before"@,
                "Determines how early before expiration the certificate should be renewed."@,
                Seq::empty(),
                TypeModel::Duration,
                Seq::empty(),
                seq![Validator::Required],
                Some("30d"@),
                None,
            ),
            fmodel(
                "challenge"@,
                "Challenge type"@,
                "The ACME challenge type used to validate domain ownership"@,
                Seq::empty(),
                TypeModel::Select {
                    options: seq![
                        ("tls-alpn-01"@, "TLS-ALPN-01"@),
                        ("dns-01"@, "DNS-01"@),
                        ("http-01"@, "HTTP-01"@),
                    ],
                    multi: false,
                },
                Seq::empty(),
                seq![Validator::Required],
                Some("tls-alpn-01"@),
                None,
            ),
            fmodel(
                "polling-interval"@,
                "Polling interval"@,
                "How often to check for DNS records to propagate"@,
                Seq::empty(),
                TypeModel::Duration,
                Seq::empty(),
                seq![Validator::Required],
                Some("15s"@),
                cond("challenge"@, seq!["dns-01"@]),
            ),
            fmodel(
                "propagation-timeout"@,
                "Propagation timeout"@,
                "How long to wait for DNS records to propagate"@,
                Seq::empty(),
                TypeModel::Duration,
                Seq::empty(),
                seq![Validator::Required],
                Some("1m"@),
                cond("challenge"@, seq!["dns-01"@]),
            ),
            fmodel(
                "ttl"@,
                "TTL"@,
                "The TTL for the DNS record used in the DNS-01 challenge"@,
                Seq::empty(),
                TypeModel::Duration,
                Seq::empty(),
                seq![Validator::Required],
                Some("5m"@),
                cond("challenge"@, seq!["dns-01"@]),
            ),
            fmodel(
                "provider"@,
                "DNS Provider"@,
                "The DNS provider used to manage DNS records for the DNS-01 challenge"@,
                Seq::empty(),
                TypeModel::Select {
                    options: seq![("rfc2136-tsig"@, "RFC2136"@), ("cloudflare"@, "Cloudflare"@)],
                    multi: false,
                },
                Seq::empty(),
                seq![Validator::Required],
                Some("rfc2136-tsig"@),
                cond("challenge"@, seq!["dns-01"@]),
            ),
            fmodel(
                "secret"@,
                "Secret"@,
                "The TSIG secret or token used to authenticate with the DNS provider"@,
                Seq::empty(),
                TypeModel::Secret,
                Seq::empty(),
                seq![Validator::Required],
                None,
                cond("challenge"@, seq!["dns-01"@]),
            ),
            fmodel(
                "timeout"@,
                "Timeout"@,
                "Request timeout for the DNS provider"@,
                Seq::empty(),
                TypeModel::Duration,
                Seq::empty(),
                seq![Validator::Required],
                Some("30s"@),
                cond("provider"@, seq!["cloudflare"@]),
            ),
            fmodel(
                "tsig-algorithm"@,
                "TSIG Algorithm"@,
                "The TSIG algorithm used to authenticate with the DNS provider"@,
                Seq::empty(),
                TypeModel::Select {
                    options: seq![
                        ("hmac-md5"@, "HMAC-MD5"@),
                        ("gss"@, "GSS"@),
                        ("hmac-sha1"@, "HMAC-SHA1"@),
                        ("hmac-sha224"@, "HMAC-SHA224"@),
                        ("hmac-sha256"@, "HMAC-SHA256"@),
                        ("hmac-sha256-128"@, "HMAC-SHA256-128"@),
                        ("hmac-sha384"@, "HMAC-SHA384"@),
                        ("hmac-sha384-192"@, "HMAC-SHA384-192"@),
                        ("hmac-sha512"@, "HMAC-SHA512"@),
                        ("hmac-sha512-256"@, "HMAC-SHA512-256"@),
                    ],
                    multi: false,
                },
                Seq::empty(),
                seq![Validator::Required],
                Some("hmac-sha512"@),
                cond("provider"@, seq!["rfc2136-tsig"@]),
            ),
            fmodel(
                "protocol"@,
                "Protocol"@,
                "The protocol used to communicate with the DNS server"@,
                Seq::empty(),
                TypeModel::Select {
                    options: seq![("udp"@, "UDP"@), ("tcp"@, "TCP"@)],
                    multi: false,
                },
                Seq::empty(),
                seq![Validator::Required],
                Some("udp"@),
                cond("provider"@, seq!["rfc2136-tsig"@]),
            ),
            fmodel(
                "port"@,
                "Port"@,
                "The port used to communicate with the DNS server"@,
                Seq::empty(),
                TypeModel::Input,
                seq![Transformer::Trim],
                seq![Validator::Required, Validator::IsPort],
                Some("53"@),
                cond("provider"@, seq!["rfc2136-tsig"@]),
            ),
            fmodel(
                "host"@,
                "Host"@,
                "The IP address of the DNS server"@,
                "127.0.0.1"@,
                TypeModel::Input,
                seq![Transformer::Trim],
                seq![Validator::Required, Validator::IsIpOrMask],
                None,
                cond("challenge"@, seq!["dns-01"@]),
            ),
            fmodel(
                "key"@,
                "Key"@,
                "The TSIG key used to authenticate with the DNS provider"@,
                Seq::empty(),
                TypeModel::Input,
                seq![Transformer::Trim],
                seq![Validator::Required],
                None,
                cond("provider"@, seq!["rfc2136-tsig"@]),
            ),
            fmodel(
                "account-key"@,
                "Account key"@,
                "The account key used to authenticate with the ACME provider (auto-generated)"@,
                Seq::empty(),
                TypeModel::Secret,
                Seq::empty(),
                Seq::empty(),
                None,
                None,
            ),
            fmodel(
                "cert"@,
                "TLS Certificate"@,
                "The TLS certificate generated by the ACME provider (auto-generated, do not modify)"@,
                Seq::empty(),
                TypeModel::Secret,
                Seq::empty(),
                Seq::empty(),
                None,
                None,
            ),
        ],
        list_title: "ACME providers"@,
        list_subtitle: "Manage ACME TLS certificate providers"@,
        list_fields: seq!["_id"@, "contact"@, "renew-before"@, "default"@],
        sections: seq![
            FormSectionModel {
                title: "ACME provider"@,
                display_if: None,
                fields: seq![
                    "_id"@,
                    "directory"@,
                    "challenge"@,
                    "contact"@,
                    "domains"@,
                    "renew-before"@,
                    "default"@,
                ],
            },
            FormSectionModel {
                title: "DNS settings"@,
                display_if: cond("challenge"@, seq!["dns-01"@]),
                fields: seq![
                    "provider"@,
                    "host"@,
                    "port"@,
                    "protocol"@,
                    "tsig-algorithm"@,
                    "key"@,
                    "secret"@,
                    "polling-interval"@,
                    "propagation-timeout"@,
                    "ttl"@,
                    "timeout"@,
                ],
            },
            FormSectionModel {
                title: "Certificate"@,
                display_if: None,
                fields: seq!["account-key"@, "cert"@],
            },
        ],
    }
}

/// The manually managed certificate schema.
pub open spec fn certificate_schema_model() -> SchemaModel {
    SchemaModel {
        key: "certificate"@,
        name_singular: "certificate"@,
        name_plural: "certificates"@,
        prefix: "certificate"@,
        suffix: "cert"@,
        reload_prefix: "certificate"@,
        fields: seq![
            fmodel(
                "_id"@,
                "Certificate Id"@,
                "Unique identifier for the TLS certificate"@,
                Seq::empty(),
                TypeModel::Input,
                seq![Transformer::Trim],
                seq![Validator::Required],
                None,
                None,
            ),
            fmodel(
                "default"@,
                "Default certificate"@,
                "Whether this certificate should be the default when no SNI is provided"@,
                Seq::empty(),
                TypeModel::Boolean,
                Seq::empty(),
                Seq::empty(),
                None,
                None,
            ),
            fmodel(
                "cert"@,
                "Certificate"@,
                "TLS certificate in PEM format"@,
                Seq::empty(),
                TypeModel::Text,
                seq![Transformer::Trim],
                seq![Validator::Required],
                None,
                None,
            ),
            fmodel(
                "private-key"@,
                "Private Key"@,
                "Private key in PEM format"@,
                Seq::empty(),
                TypeModel::Text,
                seq![Transformer::Trim],
                seq![Validator::Required],
                None,
                None,
            ),
            fmodel(
                "subjects"@,
                "Subject Alternative Names"@,
                "Subject Alternative Names (SAN) for the certificate"@,
                Seq::empty(),
                TypeModel::Array,
                seq![Transformer::Trim],
                seq![Validator::IsDomain],
                None,
                None,
            ),
        ],
        list_title: "TLS certificates"@,
        list_subtitle: "Manage TLS certificates"@,
        list_fields: seq!["_id"@, "subjects"@, "default"@],
        sections: seq![
            FormSectionModel {
                title: "TLS certificate"@,
                display_if: None,
                fields: seq!["_id"@, "cert"@, "private-key"@, "subjects"@, "default"@],
            },
        ],
    }
}

/// The four server-wide TLS option fields, as listener-level overrides or
/// as server defaults.
pub open spec fn tls_fields_model(is_listener: bool) -> Seq<FieldModel> {
    let gate = if is_listener {
        cond("tls.override"@, seq!["true"@])
    } else {
        None
    };
    seq![
        fmodel(
            if is_listener {
                "tls.ignore-client-order"@
            } else {
                "server.tls.ignore-client-order"@
            },
            "Ignore client order"@,
            "Whether to ignore the client's cipher order"@,
            Seq::empty(),
            TypeModel::Boolean,
            Seq::empty(),
            Seq::empty(),
            Some("true"@),
            gate,
        ),
        fmodel(
            if is_listener {
                "tls.timeout"@
            } else {
                "server.tls.timeout"@
            },
            "Handshake Timeout"@,
            "TLS handshake timeout"@,
            Seq::empty(),
            TypeModel::Duration,
            Seq::empty(),
            Seq::empty(),
            Some("1m"@),
            gate,
        ),
        fmodel(
            if is_listener {
                "tls.disable-protocols"@
            } else {
                "server.tls.disable-protocols"@
            },
            "Disabled Protocols"@,
            "Which TLS protocols to disable"@,
            Seq::empty(),
            TypeModel::Select {
                options: seq![("TLSv1.2"@, "TLS version 1.2"@), ("TLSv1.3"@, "TLS version 1.3"@)],
                multi: true,
            },
            Seq::empty(),
            Seq::empty(),
            None,
            gate,
        ),
        fmodel(
            if is_listener {
                "tls.disable-ciphers"@
            } else {
                "server.tls.disable-ciphers"@
            },
            "Disabled Ciphersuites"@,
            "Which ciphersuites to disable"@,
            Seq::empty(),
            TypeModel::Select {
                options: seq![
                    ("TLS13_AES_256_GCM_SHA384"@, "TLS1.3 AES256 GCM SHA384"@),
                    ("TLS13_AES_128_GCM_SHA256"@, "TLS1.3 AES128 GCM SHA256"@),
                    ("TLS13_CHACHA20_POLY1305_SHA256"@, "TLS1.3 CHACHA20 POLY1305 SHA256"@),
                    ("TLS_ECDHE_ECDSA_WITH_AES_256_GCM_SHA384"@, "ECDHE ECDSA AES256 GCM SHA384"@),
                    ("TLS_ECDHE_ECDSA_WITH_AES_128_GCM_SHA256"@, "ECDHE ECDSA AES128 GCM SHA256"@),
                    (
                        "TLS_ECDHE_ECDSA_WITH_CHACHA20_POLY1305_SHA256"@,
                        "ECDHE ECDSA CHACHA20 POLY1305 SHA256"@,
                    ),
                    ("TLS_ECDHE_RSA_WITH_AES_256_GCM_SHA384"@, "ECDHE RSA AES256 GCM SHA384"@),
                    ("TLS_ECDHE_RSA_WITH_AES_128_GCM_SHA256"@, "ECDHE RSA AES128 GCM SHA256"@),
                    (
                        "TLS_ECDHE_RSA_WITH_CHACHA20_POLY1305_SHA256"@,
                        "ECDHE RSA CHACHA20 POLY1305 SHA256"@,
                    ),
                ],
                multi: true,
            },
            Seq::empty(),
            Seq::empty(),
            None,
            gate,
        ),
    ]
}

/// The server-wide TLS options schema.
pub open spec fn tls_schema_model() -> SchemaModel {
    SchemaModel {
        key: "tls"@,
        name_singular: Seq::empty(),
        name_plural: Seq::empty(),
        prefix: Seq::empty(),
        suffix: Seq::empty(),
        reload_prefix: Seq::empty(),
        fields: tls_fields_model(false),
        list_title: Seq::empty(),
        list_subtitle: Seq::empty(),
        list_fields: Seq::empty(),
        sections: seq![
            FormSectionModel {
                title: "Default TLS options"@,
                display_if: None,
                fields: seq![
                    "server.tls.disable-protocols"@,
                    "server.tls.disable-ciphers"@,
                    "server.tls.timeout"@,
                    "server.tls.ignore-client-order"@,
                ],
            },
        ],
    }
}

impl Builder<Schemas, ()> {
    /// Declares the TLS-related schemas: the `acme` provider schema, the
    /// `certificate` schema, and the server-wide `tls` options schema.
    #[verifier::rlimit(100)]
    pub fn build_tls(self) -> (r: Self)
        ensures
            r.parent@ == self.parent@.push(acme_schema_model()).push(
                certificate_schema_model(),
            ).push(tls_schema_model()),
    {
        let acme = self
            .new_schema("acme")
            .names("ACME provider", "ACME providers")
            .prefix("acme")
            .suffix("directory")
            // Id
            .new_id_field()
            .label("Directory Id")
            .help("Unique identifier for the ACME provider")
            .build()
            // Directory
            .new_field("directory")
            .label("Directory URL")
            .help("The URL of the ACME directory endpoint")
            .typ(Type::Input)
            .input_check(&[Transformer::Trim], &[Validator::Required, Validator::IsUrl])
            .default("https://acme-v02.api.letsencrypt.org/directory")
            .build()
            // Domains
            .new_field("domains")
            .typ(Type::Array)
            .input_check(&[Transformer::Trim], &[Validator::Required])
            .label("Subject names")
            .help("Hostnames covered by this ACME manager")
            .build()
            // Default provider
            .new_field("default")
            .typ(Type::Boolean)
            .label("Default provider")
            .help(
                "Whether the certificates generated by this provider should be the default when no SNI is provided",
            )
            .build()
            // Contact
            .new_field("contact")
            .label("Contact Email")
            .help(
                "the contact email address, which is used for important communications regarding your ACME account and certificates",
            )
            .typ(Type::Array)
            .input_check(&[Transformer::Trim], &[Validator::Required, Validator::IsEmail])
            .build()
            // Renew before
            .new_field("renew-before")
            .typ(Type::Duration)
            .label("Renew before")
            .help("Determines how early before expiration the certificate should be renewed.")
            .input_check(&[], &[Validator::Required])
            .default("30d")
            .build()
            // Challenge type
            .new_field("challenge")
            .typ(
                Type::select_from(
                    &[
                        ("tls-alpn-01", "TLS-ALPN-01"),
                        ("dns-01", "DNS-01"),
                        ("http-01", "HTTP-01"),
                    ],
                    false,
                ),
            )
            .label("Challenge type")
            .help("The ACME challenge type used to validate domain ownership")
            .input_check(&[], &[Validator::Required])
            .default("tls-alpn-01")
            .build()
            // Polling interval (DNS-01)
            .new_field("polling-interval")
            .typ(Type::Duration)
            .label("Polling interval")
            .help("How often to check for DNS records to propagate")
            .display_if_eq("challenge", &["dns-01"])
            .input_check(&[], &[Validator::Required])
            .default("15s")
            .build()
            // Propagation timeout (DNS-01)
            .new_field("propagation-timeout")
            .typ(Type::Duration)
            .label("Propagation timeout")
            .help("How long to wait for DNS records to propagate")
            .display_if_eq("challenge", &["dns-01"])
            .input_check(&[], &[Validator::Required])
            .default("1m")
            .build()
            // TTL (DNS-01)
            .new_field("ttl")
            .typ(Type::Duration)
            .label("TTL")
            .help("The TTL for the DNS record used in the DNS-01 challenge")
            .display_if_eq("challenge", &["dns-01"])
            .input_check(&[], &[Validator::Required])
            .default("5m")
            .build()
            // Provider
            .new_field("provider")
            .typ(
                Type::select_from(
                    &[("rfc2136-tsig", "RFC2136"), ("cloudflare", "Cloudflare")],
                    false,
                ),
            )
            .label("DNS Provider")
            .help("The DNS provider used to manage DNS records for the DNS-01 challenge")
            .input_check(&[], &[Validator::Required])
            .default("rfc2136-tsig")
            .display_if_eq("challenge", &["dns-01"])
            .build()
            // Secret
            .new_field("secret")
            .typ(Type::Secret)
            .label("Secret")
            .help("The TSIG secret or token used to authenticate with the DNS provider")
            .input_check(&[], &[Validator::Required])
            .display_if_eq("challenge", &["dns-01"])
            .build()
            // Request timeout (DNS-01)
            .new_field("timeout")
            .typ(Type::Duration)
            .label("Timeout")
            .help("Request timeout for the DNS provider")
            .display_if_eq("provider", &["cloudflare"])
            .input_check(&[], &[Validator::Required])
            .default("30s")
            .build()
            // TSIG Algorithm
            .new_field("tsig-algorithm")
            .typ(
                Type::select_from(
                    &[
                        ("hmac-md5", "HMAC-MD5"),
                        ("gss", "GSS"),
                        ("hmac-sha1", "HMAC-SHA1"),
                        ("hmac-sha224", "HMAC-SHA224"),
                        ("hmac-sha256", "HMAC-SHA256"),
                        ("hmac-sha256-128", "HMAC-SHA256-128"),
                        ("hmac-sha384", "HMAC-SHA384"),
                        ("hmac-sha384-192", "HMAC-SHA384-192"),
                        ("hmac-sha512", "HMAC-SHA512"),
                        ("hmac-sha512-256", "HMAC-SHA512-256"),
                    ],
                    false,
                ),
            )
            .label("TSIG Algorithm")
            .help("The TSIG algorithm used to authenticate with the DNS provider")
            .input_check(&[], &[Validator::Required])
            .default("hmac-sha512")
            .display_if_eq("provider", &["rfc2136-tsig"])
            .build()
            // Protocol
            .new_field("protocol")
            .typ(Type::select_from(&[("udp", "UDP"), ("tcp", "TCP")], false))
            .label("Protocol")
            .help("The protocol used to communicate with the DNS server")
            .input_check(&[], &[Validator::Required])
            .default("udp")
            .display_if_eq("provider", &["rfc2136-tsig"])
            .build()
            // Port
            .new_field("port")
            .typ(Type::Input)
            .label("Port")
            .help("The port used to communicate with the DNS server")
            .input_check(&[Transformer::Trim], &[Validator::Required, Validator::IsPort])
            .default("53")
            .display_if_eq("provider", &["rfc2136-tsig"])
            .build()
            // Host
            .new_field("host")
            .typ(Type::Input)
            .label("Host")
            .help("The IP address of the DNS server")
            .placeholder("127.0.0.1")
            .input_check(&[Transformer::Trim], &[Validator::Required, Validator::IsIpOrMask])
            .display_if_eq("challenge", &["dns-01"])
            .build()
            // Key
            .new_field("key")
            .typ(Type::Input)
            .label("Key")
            .help("The TSIG key used to authenticate with the DNS provider")
            .input_check(&[Transformer::Trim], &[Validator::Required])
            .display_if_eq("provider", &["rfc2136-tsig"])
            .build()
            // Account key
            .new_field("account-key")
            .label("Account key")
            .help("The account key used to authenticate with the ACME provider (auto-generated)")
            .typ(Type::Secret)
            .build()
            // Certificate
            .new_field("cert")
            .label("TLS Certificate")
            .help("The TLS certificate generated by the ACME provider (auto-generated, do not modify)")
            .typ(Type::Secret)
            .build()
            // Lists
            .list_title("ACME providers")
            .list_subtitle("Manage ACME TLS certificate providers")
            .list_fields(&["_id", "contact", "renew-before", "default"])
            // Form
            .new_form_section()
            .title("ACME provider")
            .fields(
                &["_id", "directory", "challenge", "contact", "domains", "renew-before", "default"],
            )
            .build()
            .new_form_section()
            .title("DNS settings")
            .display_if_eq("challenge", &["dns-01"])
            .fields(
                &[
                    "provider",
                    "host",
                    "port",
                    "protocol",
                    "tsig-algorithm",
                    "key",
                    "secret",
                    "polling-interval",
                    "propagation-timeout",
                    "ttl",
                    "timeout",
                ],
            )
            .build()
            .new_form_section()
            .title("Certificate")
            .fields(&["account-key", "cert"])
            .build();
        proof {
            assert(acme.item@.fields =~~= acme_schema_model().fields);
            assert(acme.item@.sections =~~= acme_schema_model().sections);
            assert(acme.item@.list_fields =~~= acme_schema_model().list_fields);
            assert(acme.item@ =~~= acme_schema_model());
        }
        let certificate = acme
            .build()
            // ---- TLS certificates ----
            .new_schema("certificate")
            .reload_prefix("certificate")
            .names("certificate", "certificates")
            .prefix("certificate")
            .suffix("cert")
            // Id
            .new_id_field()
            .label("Certificate Id")
            .help("Unique identifier for the TLS certificate")
            .build()
            // Default certificate
            .new_field("default")
            .typ(Type::Boolean)
            .label("Default certificate")
            .help("Whether this certificate should be the default when no SNI is provided")
            .build()
            // Cert
            .new_field("cert")
            .label("Certificate")
            .typ(Type::Text)
            .help("TLS certificate in PEM format")
            .input_check(&[Transformer::Trim], &[Validator::Required])
            .build()
            // Private key
            .new_field("private-key")
            .label("Private Key")
            .typ(Type::Text)
            .help("Private key in PEM format")
            .input_check(&[Transformer::Trim], &[Validator::Required])
            .build()
            .new_field("subjects")
            .typ(Type::Array)
            .input_check(&[Transformer::Trim], &[Validator::IsDomain])
            .label("Subject Alternative Names")
            .help("Subject Alternative Names (SAN) for the certificate")
            .build()
            .list_title("TLS certificates")
            .list_subtitle("Manage TLS certificates")
            .list_fields(&["_id", "subjects", "default"])
            .new_form_section()
            .title("TLS certificate")
            .fields(&["_id", "cert", "private-key", "subjects", "default"])
            .build();
        proof {
            assert(certificate.item@.fields =~~= certificate_schema_model().fields);
            assert(certificate.item@.sections =~~= certificate_schema_model().sections);
            assert(certificate.item@.list_fields =~~= certificate_schema_model().list_fields);
            assert(certificate.item@ =~~= certificate_schema_model());
        }
        let tls = certificate
            .build()
            // ---- TLS settings ----
            .new_schema("tls")
            // TLS fields
            .add_tls_fields(false)
            // Forms
            .new_form_section()
            .title("Default TLS options")
            .fields(
                &[
                    "server.tls.disable-protocols",
                    "server.tls.disable-ciphers",
                    "server.tls.timeout",
                    "server.tls.ignore-client-order",
                ],
            )
            .build();
        proof {
            assert(tls.item@.fields =~~= tls_schema_model().fields);
            assert(tls.item@.sections =~~= tls_schema_model().sections);
            assert(tls.item@.list_fields =~~= tls_schema_model().list_fields);
            assert(tls.item@ =~~= tls_schema_model());
        }
        tls.build()
    }
}

impl Builder<Schemas, Schema> {
    /// The server-wide TLS option fields; listener schemas share them, with
    /// listener-local ids gated on `tls.override`.
    #[verifier::rlimit(60)]
    pub fn add_tls_fields(self, is_listener: bool) -> (r: Self)
        ensures
            r.parent == self.parent,
            r.item@ == (SchemaModel {
                fields: self.item@.fields + tls_fields_model(is_listener),
                ..self.item@
            }),
    {
        let do_override: &[&str] = if is_listener {
            &["true"]
        } else {
            &[]
        };
        let r = self
            .new_field(
                if is_listener {
                    "tls.ignore-client-order"
                } else {
                    "server.tls.ignore-client-order"
                },
            )
            .label("Ignore client order")
            .help("Whether to ignore the client's cipher order")
            .typ(Type::Boolean)
            .default("true")
            .display_if_eq("tls.override", do_override)
            .build()
            .new_field(
                if is_listener {
                    "tls.timeout"
                } else {
                    "server.tls.timeout"
                },
            )
            .label("Handshake Timeout")
            .help("TLS handshake timeout")
            .typ(Type::Duration)
            .default("1m")
            .display_if_eq("tls.override", do_override)
            .build()
            .new_field(
                if is_listener {
                    "tls.disable-protocols"
                } else {
                    "server.tls.disable-protocols"
                },
            )
            .label("Disabled Protocols")
            .help("Which TLS protocols to disable")
            .typ(
                Type::select_from(
                    &[("TLSv1.2", "TLS version 1.2"), ("TLSv1.3", "TLS version 1.3")],
                    true,
                ),
            )
            .display_if_eq("tls.override", do_override)
            .build()
            .new_field(
                if is_listener {
                    "tls.disable-ciphers"
                } else {
                    "server.tls.disable-ciphers"
                },
            )
            .label("Disabled Ciphersuites")
            .help("Which ciphersuites to disable")
            .typ(
                Type::select_from(
                    &[
                        ("TLS13_AES_256_GCM_SHA384", "TLS1.3 AES256 GCM SHA384"),
                        ("TLS13_AES_128_GCM_SHA256", "TLS1.3 AES128 GCM SHA256"),
                        ("TLS13_CHACHA20_POLY1305_SHA256", "TLS1.3 CHACHA20 POLY1305 SHA256"),
                        (
                            "TLS_ECDHE_ECDSA_WITH_AES_256_GCM_SHA384",
                            "ECDHE ECDSA AES256 GCM SHA384",
                        ),
                        (
                            "TLS_ECDHE_ECDSA_WITH_AES_128_GCM_SHA256",
                            "ECDHE ECDSA AES128 GCM SHA256",
                        ),
                        (
                            "TLS_ECDHE_ECDSA_WITH_CHACHA20_POLY1305_SHA256",
                            "ECDHE ECDSA CHACHA20 POLY1305 SHA256",
                        ),
                        ("TLS_ECDHE_RSA_WITH_AES_256_GCM_SHA384", "ECDHE RSA AES256 GCM SHA384"),
                        ("TLS_ECDHE_RSA_WITH_AES_128_GCM_SHA256", "ECDHE RSA AES128 GCM SHA256"),
                        (
                            "TLS_ECDHE_RSA_WITH_CHACHA20_POLY1305_SHA256",
                            "ECDHE RSA CHACHA20 POLY1305 SHA256",
                        ),
                    ],
                    true,
                ),
            )
            .display_if_eq("tls.override", do_override)
            .build();
        proof {
            let pre = self.item@.fields;
            let tm = tls_fields_model(is_listener);
            assert(r.item@.fields[pre.len() as int] =~~= tm[0]);
            assert(r.item@.fields[pre.len() as int + 1] =~~= tm[1]);
            assert(r.item@.fields[pre.len() as int + 2] =~~= tm[2]);
            assert(r.item@.fields[pre.len() as int + 3] =~~= tm[3]);
            assert(r.item@.fields =~~= pre + tm);
        }
        r
    }
}

} // verus!
