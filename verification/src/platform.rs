use vstd::prelude::*;

verus! {

/// The operating system the browser was built for.
#[derive(Clone, Copy, Debug, PartialEq, Eq, Structural)]
pub enum Platform {
    MacOs,
    Windows,
    Linux,
}

impl Platform {
    /// On Linux the browser uses its main webview for every tab instead of
    /// embedding one child webview per tab.
    pub open spec fn spec_is_linux(self) -> bool {
        self == Platform::Linux
    }

    #[verifier::when_used_as_spec(spec_is_linux)]
    pub fn is_linux(self) -> (r: bool)
        ensures
            r == self.spec_is_linux(),
    {
        match self {
            Platform::Linux => true,
            _ => false,
        }
    }
}

/// The user agent announced on each platform: the system WebKit identity
/// followed by Safari, Chrome and Firefox tokens, so that sites that sniff
/// for a known browser accept the page.
pub open spec fn spec_user_agent(platform: Platform) -> Seq<char> {
    match platform {
        Platform::MacOs => "Mozilla/5.0 (Macintosh; Intel Mac OS X 10_15_7) AppleWebKit/605.1.15 (KHTML, like Gecko) Safari/603.1 Chrome/79.0.0.0 Firefox/72.0 moowcharnfu"@,
        Platform::Windows => "Mozilla/5.0 (Windows NT 10.0; Win64; x64) AppleWebKit/605.1.15 (KHTML, like Gecko) Safari/603.1 Chrome/79.0.0.0 Firefox/72.0 moowcharnfu"@,
        Platform::Linux => "Mozilla/5.0 (X11; Linux x86_64) AppleWebKit/605.1.15 (KHTML, like Gecko) Safari/603.1 Chrome/79.0.0.0 Firefox/72.0 moowcharnfu"@,
    }
}

/// The user agent string of the content webviews on `platform`.
pub fn user_agent(platform: Platform) -> (ua: &'static str)
    ensures
        ua@ == spec_user_agent(platform),
{
    match platform {
        Platform::MacOs => "Mozilla/5.0 (Macintosh; Intel Mac OS X 10_15_7) AppleWebKit/605.1.15 (KHTML, like Gecko) Safari/603.1 Chrome/79.0.0.0 Firefox/72.0 moowcharnfu",
        Platform::Windows => "Mozilla/5.0 (Windows NT 10.0; Win64; x64) AppleWebKit/605.1.15 (KHTML, like Gecko) Safari/603.1 Chrome/79.0.0.0 Firefox/72.0 moowcharnfu",
        Platform::Linux => "Mozilla/5.0 (X11; Linux x86_64) AppleWebKit/605.1.15 (KHTML, like Gecko) Safari/603.1 Chrome/79.0.0.0 Firefox/72.0 moowcharnfu",
    }
}

} // verus!
