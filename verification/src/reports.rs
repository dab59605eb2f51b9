//! The reports that scripts fill in: CVE reports with their matchers,
//! vulnerability reports, general reports, and the list of a script's reports.

use vstd::prelude::*;

verus! {

/// What a CVE matcher was matched against.
#[derive(Clone, Debug, PartialEq, Eq)]
pub enum ReportMatchers {
    RawResponse(String),
    ResposneHeaders(String),
    ResponseBody(String),
    StatusCode(String),
    General(String),
}

impl ReportMatchers {
    /// The matcher for a script's type number: 1 raw response, 2 response
    /// headers, 3 response body, 4 status code, anything else general.
    pub fn from_type(matcher_string: String, matching_type: i32) -> (m: ReportMatchers)
        ensures
            m == (if matching_type == 1 {
                ReportMatchers::RawResponse(matcher_string)
            } else if matching_type == 2 {
                ReportMatchers::ResposneHeaders(matcher_string)
            } else if matching_type == 3 {
                ReportMatchers::ResponseBody(matcher_string)
            } else if matching_type == 4 {
                ReportMatchers::StatusCode(matcher_string)
            } else {
                ReportMatchers::General(matcher_string)
            }),
    {
        match matching_type {
            1 => ReportMatchers::RawResponse(matcher_string),
            2 => ReportMatchers::ResposneHeaders(matcher_string),
            3 => ReportMatchers::ResponseBody(matcher_string),
            4 => ReportMatchers::StatusCode(matcher_string),
            _ => ReportMatchers::General(matcher_string),
        }
    }
}

/// A report about a known CVE.
#[derive(Clone, Debug)]
pub struct CveReport {
    pub name: Option<String>,
    pub description: Option<String>,
    pub url: Option<String>,
    pub risk: Option<String>,
    pub matchers: Vec<ReportMatchers>,
}

impl CveReport {
    /// An empty report.
    pub fn init() -> (r: CveReport)
        ensures
            r.name is None,
            r.description is None,
            r.url is None,
            r.risk is None,
            r.matchers@.len() == 0,
    {
        CveReport { name: None, description: None, url: None, risk: None, matchers: Vec::new() }
    }

    pub fn set_risk(&mut self, risk: String)
        ensures
            *final(self) == (CveReport { risk: Some(risk), ..*old(self) }),
    {
        self.risk = Some(risk);
    }

    pub fn set_name(&mut self, name: String)
        ensures
            *final(self) == (CveReport { name: Some(name), ..*old(self) }),
    {
        self.name = Some(name);
    }

    pub fn set_url(&mut self, url: String)
        ensures
            *final(self) == (CveReport { url: Some(url), ..*old(self) }),
    {
        self.url = Some(url);
    }

    pub fn set_description(&mut self, description: String)
        ensures
            *final(self) == (CveReport { description: Some(description), ..*old(self) }),
    {
        self.description = Some(description);
    }

    /// Adds the matcher of the given type number (see `ReportMatchers::from_type`).
    pub fn add_matcher(&mut self, matcher_string: String, matching_type: i32)
        ensures
            final(self).matchers@ == old(self).matchers@.push(
                ReportMatchers::from_type_spec(matcher_string, matching_type)),
            final(self).name == old(self).name,
            final(self).description == old(self).description,
            final(self).url == old(self).url,
            final(self).risk == old(self).risk,
    {
        let m = ReportMatchers::from_type(matcher_string, matching_type);
        self.matchers.push(m);
    }
}

impl ReportMatchers {
    pub open spec fn from_type_spec(matcher_string: String, matching_type: i32) -> ReportMatchers {
        if matching_type == 1 {
            ReportMatchers::RawResponse(matcher_string)
        } else if matching_type == 2 {
            ReportMatchers::ResposneHeaders(matcher_string)
        } else if matching_type == 3 {
            ReportMatchers::ResponseBody(matcher_string)
        } else if matching_type == 4 {
            ReportMatchers::StatusCode(matcher_string)
        } else {
            ReportMatchers::General(matcher_string)
        }
    }
}

/// A report about a vulnerability found by a script.
#[derive(Clone, Debug)]
pub struct OutReport {
    pub risk: Option<String>,
    pub name: Option<String>,
    pub description: Option<String>,
    pub url: Option<String>,
    pub param: Option<String>,
    pub attack: Option<String>,
    pub evidence: Option<String>,
}

impl OutReport {
    /// An empty report.
    pub fn init() -> (r: OutReport)
        ensures
            r.risk is None,
            r.name is None,
            r.description is None,
            r.url is None,
            r.param is None,
            r.attack is None,
            r.evidence is None,
    {
        OutReport { risk: None, name: None, description: None, url: None, param: None, attack: None, evidence: None }
    }

    pub fn set_risk(&mut self, risk: String)
        ensures
            *final(self) == (OutReport { risk: Some(risk), ..*old(self) }),
    {
        self.risk = Some(risk);
    }

    pub fn set_name(&mut self, name: String)
        ensures
            *final(self) == (OutReport { name: Some(name), ..*old(self) }),
    {
        self.name = Some(name);
    }

    pub fn set_url(&mut self, url: String)
        ensures
            *final(self) == (OutReport { url: Some(url), ..*old(self) }),
    {
        self.url = Some(url);
    }

    pub fn set_description(&mut self, description: String)
        ensures
            *final(self) == (OutReport { description: Some(description), ..*old(self) }),
    {
        self.description = Some(description);
    }

    pub fn set_param(&mut self, param: String)
        ensures
            *final(self) == (OutReport { param: Some(param), ..*old(self) }),
    {
        self.param = Some(param);
    }

    pub fn set_attack(&mut self, attack: String)
        ensures
            *final(self) == (OutReport { attack: Some(attack), ..*old(self) }),
    {
        self.attack = Some(attack);
    }

    pub fn set_evidence(&mut self, evidence: String)
        ensures
            *final(self) == (OutReport { evidence: Some(evidence), ..*old(self) }),
    {
        self.evidence = Some(evidence);
    }
}

/// A report of either kind, tagged by its `report_type`.
#[derive(Clone, Debug)]
pub enum LotusReport {
    CVE(CveReport),
    VULN(OutReport),
}

/// The reports that a script added, in order.
#[derive(Clone, Debug)]
pub struct AllReports {
    pub reports: Vec<LotusReport>,
}

impl AllReports {
    pub fn add_vuln_report(&mut self, the_report: OutReport)
        ensures
            final(self).reports@ == old(self).reports@.push(LotusReport::VULN(the_report)),
    {
        self.reports.push(LotusReport::VULN(the_report));
    }

    pub fn add_cve_report(&mut self, the_report: CveReport)
        ensures
            final(self).reports@ == old(self).reports@.push(LotusReport::CVE(the_report)),
    {
        self.reports.push(LotusReport::CVE(the_report));
    }
}

#[verifier::external_type_specification]
#[verifier::external_body]
pub struct ExJsonValue(serde_json::Value);

/// A report whose matchers are free-form JSON values.
#[derive(Clone, Debug)]
pub struct GeneralReport {
    pub name: Option<String>,
    pub description: Option<String>,
    pub target: Option<String>,
    pub risk: Option<String>,
    pub matchers: Vec<serde_json::Value>,
}

impl GeneralReport {
    /// An empty report.
    pub fn init() -> (r: Self)
        ensures
            r.name is None,
            r.description is None,
            r.target is None,
            r.risk is None,
            r.matchers@.len() == 0,
    {
        Self { name: None, target: None, description: None, risk: None, matchers: Vec::new() }
    }

    pub fn set_risk(&mut self, risk: String)
        ensures
            *final(self) == (GeneralReport { risk: Some(risk), ..*old(self) }),
    {
        self.risk = Some(risk);
    }

    pub fn set_name(&mut self, name: String)
        ensures
            *final(self) == (GeneralReport { name: Some(name), ..*old(self) }),
    {
        self.name = Some(name);
    }

    pub fn set_target(&mut self, target: String)
        ensures
            *final(self) == (GeneralReport { target: Some(target), ..*old(self) }),
    {
        self.target = Some(target);
    }

    pub fn set_description(&mut self, description: String)
        ensures
            *final(self) == (GeneralReport { description: Some(description), ..*old(self) }),
    {
        self.description = Some(description);
    }

    /// Appends a matcher value.
    pub fn add_matcher(&mut self, matcher: serde_json::Value)
        ensures
            final(self).matchers@ == old(self).matchers@.push(matcher),
            final(self).name == old(self).name,
            final(self).description == old(self).description,
            final(self).target == old(self).target,
            final(self).risk == old(self).risk,
    {
        self.matchers.push(matcher);
    }
}

} // verus!
