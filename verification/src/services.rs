//! Configuration catalog of the query tool that ships alongside the
//! duplication engine: the reachable environments and the service registry
//! with its endpoint templates.  The catalog is fixed data; its builder
//! pins every entry.

use vstd::prelude::*;
use std::collections::HashMap;
use vstd::string::*;

verus! {

/// One request to a remote service, as the query tool submits it.
#[derive(Debug)]
pub struct ApiRequest {
    pub environment: String,
    pub service: String,
    pub endpoint: String,
    pub token: String,
    pub jsonpath_query: String,
}

/// One response from a remote service, as the query tool reports it.
#[derive(Debug)]
pub struct ApiResponse {
    pub success: bool,
    pub raw_response: Option<String>,
    pub jsonpath_result: Option<String>,
    pub error: Option<String>,
    pub url_used: String,
    pub execution_time_ms: u64,
}

/// A named endpoint template of a service, with an example.
#[derive(Debug)]
pub struct ServiceTemplate {
    pub name: String,
    pub pattern: String,
    pub example: String,
}

/// One remote service: display name, base address, and its templates.
#[derive(Debug)]
pub struct ServiceConfig {
    pub name: String,
    pub base_url: String,
    pub templates: Vec<ServiceTemplate>,
}

/// One reachable environment and the address prefix it uses.
#[derive(Debug)]
pub struct Environment {
    pub key: String,
    pub name: String,
    pub prefix: String,
}

/// Whether a template holds exactly these three strings.
pub open spec fn tmpl_is(
    t: ServiceTemplate,
    name: Seq<char>,
    pattern: Seq<char>,
    example: Seq<char>,
) -> bool {
    t.name@ == name && t.pattern@ == pattern && t.example@ == example
}

fn template(name: &str, pattern: &str, example: &str) -> (t: ServiceTemplate)
    ensures
        tmpl_is(t, name@, pattern@, example@),
{
    ServiceTemplate {
        name: String::from_str(name),
        pattern: String::from_str(pattern),
        example: String::from_str(example),
    }
}

/// The environments the tool can reach: two sandboxes and production, each
/// with its address prefix; production has none.
pub fn get_environments() -> (r: Vec<Environment>)
    ensures
        r@.len() == 3,
        r@[0].key@ == "sandbox3"@ && r@[0].name@ == "Sandbox 3"@ && r@[0].prefix@ == "sandbox3-"@,
        r@[1].key@ == "sandbox8"@ && r@[1].name@ == "Sandbox 8"@ && r@[1].prefix@ == "sandbox8-"@,
        r@[2].key@ == "production"@ && r@[2].name@ == "Production"@ && r@[2].prefix@.len() == 0,
{
    let mut r: Vec<Environment> = Vec::new();
    r.push(
        Environment {
            key: String::from_str("sandbox3"),
            name: String::from_str("Sandbox 3"),
            prefix: String::from_str("sandbox3-"),
        },
    );
    r.push(
        Environment {
            key: String::from_str("sandbox8"),
            name: String::from_str("Sandbox 8"),
            prefix: String::from_str("sandbox8-"),
        },
    );
    r.push(
        Environment {
            key: String::from_str("production"),
            name: String::from_str("Production"),
            prefix: String::new(),
        },
    );
    r
}

/// The service registry as ordered key/configuration pairs: seven
/// services, each with its display name, base address and templates.
pub fn service_configs() -> (r: Vec<(String, ServiceConfig)>)
    ensures
        r@.len() == 7,
        r@[0].0@ == "study-definition"@ && r@[0].1.name@ == "Study Definition"@
            && r@[0].1.base_url@ == "kap-studydef.azurewebsites.net"@
            && r@[0].1.templates@.len() == 2 && tmpl_is(
            r@[0].1.templates@[0],
            "Study Details"@,
            "/studies/{STUDY_ID}"@,
            "/studies/KAP810451268"@,
        ) && tmpl_is(r@[0].1.templates@[1], "Custom Path"@, "{CUSTOM_PATH}"@, "/studies/list"@),
        r@[1].0@ == "questionnaire-factory"@ && r@[1].1.name@ == "Questionnaire Factory"@
            && r@[1].1.base_url@ == "kap-qfactory.azurewebsites.net"@
            && r@[1].1.templates@.len() == 4 && tmpl_is(
            r@[1].1.templates@[0],
            "Wave Details"@,
            "/waves/{WAVE_ID}"@,
            "/waves/4d3009d9-dc7d-4449-835b-91962359460c"@,
        ) && tmpl_is(
            r@[1].1.templates@[1],
            "All Questions in Wave"@,
            "/waves/{WAVE_ID}/all-questions"@,
            "/waves/4d3009d9-dc7d-4449-835b-91962359460c/all-questions"@,
        ) && tmpl_is(
            r@[1].1.templates@[2],
            "List Replacements"@,
            "/waves/{WAVE_ID}/list_replacements"@,
            "/waves/4d3009d9-dc7d-4449-835b-91962359460c/list_replacements"@,
        ) && tmpl_is(r@[1].1.templates@[3], "Custom Path"@, "{CUSTOM_PATH}"@, "/products/list"@),
        r@[2].0@ == "azure-file-manager"@ && r@[2].1.name@ == "Azure File Manager"@
            && r@[2].1.base_url@ == "kap-azure-file-manager.azurewebsites.net/api"@
            && r@[2].1.templates@.len() == 2 && tmpl_is(
            r@[2].1.templates@[0],
            "File List"@,
            "/files/{PATH}"@,
            "/files/uploads"@,
        ) && tmpl_is(r@[2].1.templates@[1], "Custom Path"@, "{CUSTOM_PATH}"@, "/files/download"@),
        r@[3].0@ == "user-store"@ && r@[3].1.name@ == "User Store"@ && r@[3].1.base_url@
            == "kap-userstore.azurewebsites.net"@ && r@[3].1.templates@.len() == 2 && tmpl_is(
            r@[3].1.templates@[0],
            "User Info"@,
            "/users/{USER_ID}"@,
            "/users/12345"@,
        ) && tmpl_is(r@[3].1.templates@[1], "Custom Path"@, "{CUSTOM_PATH}"@, "/users/profile"@),
        r@[4].0@ == "common-data"@ && r@[4].1.name@ == "Common Data"@ && r@[4].1.base_url@
            == "kap-commondata.azurewebsites.net"@ && r@[4].1.templates@.len() == 2 && tmpl_is(
            r@[4].1.templates@[0],
            "Data Query"@,
            "/data/{TYPE}"@,
            "/data/countries"@,
        ) && tmpl_is(r@[4].1.templates@[1], "Custom Path"@, "{CUSTOM_PATH}"@, "/data/languages"@),
        r@[5].0@ == "product-template"@ && r@[5].1.name@ == "Product Template"@
            && r@[5].1.base_url@ == "kap-product-template.azurewebsites.net/api"@
            && r@[5].1.templates@.len() == 1 && tmpl_is(
            r@[5].1.templates@[0],
            "Product Template"@,
            "/producttemplate/product/{PRODUCT_NAME}?version={VERSION}&language={LANGUAGE}"@,
            "/producttemplate/product/Linkplustv?version=15&language=en-us"@,
        ),
        r@[6].0@ == "tesseract-schema"@ && r@[6].1.name@ == "Tesseract Schema"@
            && r@[6].1.base_url@ == "kap-tesseract-pre-prod.azurewebsites.net"@
            && r@[6].1.templates@.len() == 1 && tmpl_is(
            r@[6].1.templates@[0],
            "Product Outputs"@,
            "/kap/product/outputs/{PRODUCT_NAME}"@,
            "/kap/product/outputs/Linkplustv"@,
        ),
{
    let mut r: Vec<(String, ServiceConfig)> = Vec::new();
    let mut t0: Vec<ServiceTemplate> = Vec::new();
    t0.push(template("Study Details", "/studies/{STUDY_ID}", "/studies/KAP810451268"));
    t0.push(template("Custom Path", "{CUSTOM_PATH}", "/studies/list"));
    r.push(
        (
            String::from_str("study-definition"),
            ServiceConfig {
                name: String::from_str("Study Definition"),
                base_url: String::from_str("kap-studydef.azurewebsites.net"),
                templates: t0,
            },
        ),
    );
    let mut t1: Vec<ServiceTemplate> = Vec::new();
    t1.push(
        template(
            "Wave Details",
            "/waves/{WAVE_ID}",
            "/waves/4d3009d9-dc7d-4449-835b-91962359460c",
        ),
    );
    t1.push(
        template(
            "All Questions in Wave",
            "/waves/{WAVE_ID}/all-questions",
            "/waves/4d3009d9-dc7d-4449-835b-91962359460c/all-questions",
        ),
    );
    t1.push(
        template(
            "List Replacements",
            "/waves/{WAVE_ID}/list_replacements",
            "/waves/4d3009d9-dc7d-4449-835b-91962359460c/list_replacements",
        ),
    );
    t1.push(template("Custom Path", "{CUSTOM_PATH}", "/products/list"));
    r.push(
        (
            String::from_str("questionnaire-factory"),
            ServiceConfig {
                name: String::from_str("Questionnaire Factory"),
                base_url: String::from_str("kap-qfactory.azurewebsites.net"),
                templates: t1,
            },
        ),
    );
    let mut t2: Vec<ServiceTemplate> = Vec::new();
    t2.push(template("File List", "/files/{PATH}", "/files/uploads"));
    t2.push(template("Custom Path", "{CUSTOM_PATH}", "/files/download"));
    r.push(
        (
            String::from_str("azure-file-manager"),
            ServiceConfig {
                name: String::from_str("Azure File Manager"),
                base_url: String::from_str("kap-azure-file-manager.azurewebsites.net/api"),
                templates: t2,
            },
        ),
    );
    let mut t3: Vec<ServiceTemplate> = Vec::new();
    t3.push(template("User Info", "/users/{USER_ID}", "/users/12345"));
    t3.push(template("Custom Path", "{CUSTOM_PATH}", "/users/profile"));
    r.push(
        (
            String::from_str("user-store"),
            ServiceConfig {
                name: String::from_str("User Store"),
                base_url: String::from_str("kap-userstore.azurewebsites.net"),
                templates: t3,
            },
        ),
    );
    let mut t4: Vec<ServiceTemplate> = Vec::new();
    t4.push(template("Data Query", "/data/{TYPE}", "/data/countries"));
    t4.push(template("Custom Path", "{CUSTOM_PATH}", "/data/languages"));
    r.push(
        (
            String::from_str("common-data"),
            ServiceConfig {
                name: String::from_str("Common Data"),
                base_url: String::from_str("kap-commondata.azurewebsites.net"),
                templates: t4,
            },
        ),
    );
    let mut t5: Vec<ServiceTemplate> = Vec::new();
    t5.push(
        template(
            "Product Template",
            "/producttemplate/product/{PRODUCT_NAME}?version={VERSION}&language={LANGUAGE}",
            "/producttemplate/product/Linkplustv?version=15&language=en-us",
        ),
    );
    r.push(
        (
            String::from_str("product-template"),
            ServiceConfig {
                name: String::from_str("Product Template"),
                base_url: String::from_str("kap-product-template.azurewebsites.net/api"),
                templates: t5,
            },
        ),
    );
    let mut t6: Vec<ServiceTemplate> = Vec::new();
    t6.push(
        template(
            "Product Outputs",
            "/kap/product/outputs/{PRODUCT_NAME}",
            "/kap/product/outputs/Linkplustv",
        ),
    );
    r.push(
        (
            String::from_str("tesseract-schema"),
            ServiceConfig {
                name: String::from_str("Tesseract Schema"),
                base_url: String::from_str("kap-tesseract-pre-prod.azurewebsites.net"),
                templates: t6,
            },
        ),
    );
    r
}

/// The service registry as a map from key to configuration, built from the
/// pinned catalog.  What the map holds is stated by `service_configs`; the
/// map form exists for keyed lookup.
pub fn get_services() -> HashMap<String, ServiceConfig> {
    let configs = service_configs();
    let mut services: HashMap<String, ServiceConfig> = HashMap::new();
    for entry in configs.into_iter() {
        let (key, config) = entry;
        services.insert(key, config);
    }
    services
}

} // verus!
