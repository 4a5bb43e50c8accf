//! Query-string arguments of the back-office list pages.
use vstd::prelude::*;

verus! {

/// Arguments of the subject list page.
#[derive(Debug)]
pub struct SubjectBackendQueryArg {
    pub page: Option<u32>,
    pub keyword: Option<String>,
    pub msg: Option<String>,
    pub is_del: Option<bool>,
}

impl SubjectBackendQueryArg {
    /// Requested page, 0 when absent.
    pub fn page(&self) -> (r: u32)
        ensures
            r == match self.page {
                Some(p) => p,
                None => 0,
            },
    {
        match &self.page {
            Some(p) => *p,
            None => 0,
        }
    }

    /// Search keyword, empty when absent.
    pub fn keyword(&self) -> (r: &str)
        ensures
            r@ == match self.keyword {
                Some(s) => s@,
                None => Seq::empty(),
            },
    {
        match &self.keyword {
            Some(s) => s.as_str(),
            None => {
                proof {
                    reveal_strlit("");
                }
                ""
            },
        }
    }

    /// Whether deleted records are listed, false when absent.
    pub fn is_del(&self) -> (r: bool)
        ensures
            r == match self.is_del {
                Some(d) => d,
                None => false,
            },
    {
        match &self.is_del {
            Some(d) => *d,
            None => false,
        }
    }
}

/// Arguments of the tag list page.
#[derive(Debug)]
pub struct TagBackendQueryArg {
    pub page: Option<u32>,
    pub keyword: Option<String>,
    pub msg: Option<String>,
    pub is_del: Option<bool>,
}

impl TagBackendQueryArg {
    /// Requested page, 0 when absent.
    pub fn page(&self) -> (r: u32)
        ensures
            r == match self.page {
                Some(p) => p,
                None => 0,
            },
    {
        match &self.page {
            Some(p) => *p,
            None => 0,
        }
    }

    /// Search keyword, empty when absent.
    pub fn keyword(&self) -> (r: &str)
        ensures
            r@ == match self.keyword {
                Some(s) => s@,
                None => Seq::empty(),
            },
    {
        match &self.keyword {
            Some(s) => s.as_str(),
            None => {
                proof {
                    reveal_strlit("");
                }
                ""
            },
        }
    }

    /// Whether deleted records are listed, false when absent.
    pub fn is_del(&self) -> (r: bool)
        ensures
            r == match self.is_del {
                Some(d) => d,
                None => false,
            },
    {
        match &self.is_del {
            Some(d) => *d,
            None => false,
        }
    }
}

/// Arguments of the topic list page.
#[derive(Debug)]
pub struct BackendQueryArg {
    pub page: Option<u32>,
    pub keyword: Option<String>,
    pub msg: Option<String>,
    pub is_del: Option<bool>,
}

impl BackendQueryArg {
    /// Requested page, 0 when absent.
    pub fn page(&self) -> (r: u32)
        ensures
            r == match self.page {
                Some(p) => p,
                None => 0,
            },
    {
        match &self.page {
            Some(p) => *p,
            None => 0,
        }
    }

    /// Search keyword, empty when absent.
    pub fn keyword(&self) -> (r: &str)
        ensures
            r@ == match self.keyword {
                Some(s) => s@,
                None => Seq::empty(),
            },
    {
        match &self.keyword {
            Some(s) => s.as_str(),
            None => {
                proof {
                    reveal_strlit("");
                }
                ""
            },
        }
    }

    /// Whether deleted records are listed, false when absent.
    pub fn is_del(&self) -> (r: bool)
        ensures
            r == match self.is_del {
                Some(d) => d,
                None => false,
            },
    {
        match &self.is_del {
            Some(d) => *d,
            None => false,
        }
    }
}

/// Page argument of the public list pages.
#[derive(Debug)]
pub struct PaginationArgs {
    pub page: u32,
}

/// Path of a topic page.
#[derive(Debug)]
pub struct TopicArgs {
    pub subject_slug: String,
    pub slug: String,
}

/// Query of a topic page: `hc == Some(1)` selects hCaptcha over reCAPTCHA.
#[derive(Debug)]
pub struct TopicQuery {
    pub hc: Option<u8>,
}

/// Whether a topic page query selects hCaptcha.
pub fn uses_hcaptcha(q: &TopicQuery) -> (r: bool)
    ensures
        r == (q.hc == Some(1u8)),
{
    match q.hc {
        Some(v) => v == 1,
        None => false,
    }
}

} // verus!
