use vstd::prelude::*;

verus! {

/// A raw enumeration value from the foreign side that names no variant.
#[derive(Clone, Copy, Debug, PartialEq, Eq, Structural)]
pub struct UnrecognizedVariant {
    pub value: i32,
}

/// Policy for how the Referrer HTTP header value is sent during navigation.
#[derive(Clone, Copy, Debug, PartialEq, Eq, Structural)]
pub enum ReferrerPolicy {
    /// Clear the referrer header if the header value is HTTPS but the request
    /// destination is HTTP. This is the default behavior.
    Default,
    /// If the destination is HTTP, an HTTPS referrer is cleared; if it is
    /// cross-origin with the referrer, the referrer is stripped to an origin.
    ReduceReferrerGranularityOnTransitionCrossOrigin,
    /// Strip the referrer down to an origin when the origins differ.
    OriginOnlyOnTransitionCrossOrigin,
    /// Never change the referrer.
    NeverClearReferrer,
    /// Strip the referrer down to the origin regardless of the redirect
    /// location.
    Origin,
    /// Clear the referrer when it is cross-origin with the destination.
    ClearReferrerOnTransitionCrossOrigin,
    /// Strip the referrer down to the origin, but clear it entirely if it is
    /// HTTPS and the destination is HTTP.
    OriginClearOnTransitionFromSecureToInsecure,
    /// Always clear the referrer.
    NoReferrer,
}

impl ReferrerPolicy {
    /// The value of the policy in the foreign ABI.
    pub open spec fn spec_raw(self) -> i32 {
        match self {
            ReferrerPolicy::Default => 0,
            ReferrerPolicy::ReduceReferrerGranularityOnTransitionCrossOrigin => 1,
            ReferrerPolicy::OriginOnlyOnTransitionCrossOrigin => 2,
            ReferrerPolicy::NeverClearReferrer => 3,
            ReferrerPolicy::Origin => 4,
            ReferrerPolicy::ClearReferrerOnTransitionCrossOrigin => 5,
            ReferrerPolicy::OriginClearOnTransitionFromSecureToInsecure => 6,
            ReferrerPolicy::NoReferrer => 7,
        }
    }

    /// The value of the policy in the foreign ABI.
    pub fn to_raw(&self) -> (r: i32)
        ensures
            r == self.spec_raw(),
    {
        match self {
            ReferrerPolicy::Default => 0,
            ReferrerPolicy::ReduceReferrerGranularityOnTransitionCrossOrigin => 1,
            ReferrerPolicy::OriginOnlyOnTransitionCrossOrigin => 2,
            ReferrerPolicy::NeverClearReferrer => 3,
            ReferrerPolicy::Origin => 4,
            ReferrerPolicy::ClearReferrerOnTransitionCrossOrigin => 5,
            ReferrerPolicy::OriginClearOnTransitionFromSecureToInsecure => 6,
            ReferrerPolicy::NoReferrer => 7,
        }
    }

    /// Converts a raw value from the foreign side. A value that names no
    /// policy is reported, never reinterpreted.
    pub fn from_unchecked(c: i32) -> (r: Result<ReferrerPolicy, UnrecognizedVariant>)
        ensures
            r is Ok <==> 0 <= c < 8,
            r is Ok ==> r->Ok_0.spec_raw() == c,
            r is Err ==> r->Err_0.value == c,
    {
        if c == 0 {
            Ok(ReferrerPolicy::Default)
        } else if c == 1 {
            Ok(ReferrerPolicy::ReduceReferrerGranularityOnTransitionCrossOrigin)
        } else if c == 2 {
            Ok(ReferrerPolicy::OriginOnlyOnTransitionCrossOrigin)
        } else if c == 3 {
            Ok(ReferrerPolicy::NeverClearReferrer)
        } else if c == 4 {
            Ok(ReferrerPolicy::Origin)
        } else if c == 5 {
            Ok(ReferrerPolicy::ClearReferrerOnTransitionCrossOrigin)
        } else if c == 6 {
            Ok(ReferrerPolicy::OriginClearOnTransitionFromSecureToInsecure)
        } else if c == 7 {
            Ok(ReferrerPolicy::NoReferrer)
        } else {
            Err(UnrecognizedVariant { value: c })
        }
    }
}

/// Resource type for a request.
#[derive(Clone, Copy, Debug, PartialEq, Eq, Structural)]
pub enum ResourceType {
    /// Top level page.
    MainFrame,
    /// Frame or iframe.
    SubFrame,
    /// CSS stylesheet.
    Stylesheet,
    /// External script.
    Script,
    /// Image (jpg/gif/png/etc).
    Image,
    /// Font.
    FontResource,
    /// Some other subresource. This is the default type if the actual type is
    /// unknown.
    SubResource,
    /// Object (or embed) tag for a plugin, or a resource that a plugin
    /// requested.
    Object,
    /// Media resource.
    Media,
    /// Main resource of a dedicated worker.
    Worker,
    /// Main resource of a shared worker.
    SharedWorker,
    /// Explicitly requested prefetch.
    Prefetch,
    /// Favicon.
    Favicon,
    /// XMLHttpRequest.
    XHR,
    /// A request for a ping.
    Ping,
    /// Main resource of a service worker.
    ServiceWorker,
    /// A report of Content Security Policy violations.
    CSPReport,
    /// A resource that a plugin requested.
    PluginResource,
}

impl ResourceType {
    /// The value of the type in the foreign ABI.
    pub open spec fn spec_raw(self) -> i32 {
        match self {
            ResourceType::MainFrame => 0,
            ResourceType::SubFrame => 1,
            ResourceType::Stylesheet => 2,
            ResourceType::Script => 3,
            ResourceType::Image => 4,
            ResourceType::FontResource => 5,
            ResourceType::SubResource => 6,
            ResourceType::Object => 7,
            ResourceType::Media => 8,
            ResourceType::Worker => 9,
            ResourceType::SharedWorker => 10,
            ResourceType::Prefetch => 11,
            ResourceType::Favicon => 12,
            ResourceType::XHR => 13,
            ResourceType::Ping => 14,
            ResourceType::ServiceWorker => 15,
            ResourceType::CSPReport => 16,
            ResourceType::PluginResource => 17,
        }
    }

    /// Converts a raw value from the foreign side. A value that names no
    /// resource type is reported, never reinterpreted.
    pub fn from_unchecked(c: i32) -> (r: Result<ResourceType, UnrecognizedVariant>)
        ensures
            r is Ok <==> 0 <= c < 18,
            r is Ok ==> r->Ok_0.spec_raw() == c,
            r is Err ==> r->Err_0.value == c,
    {
        if c == 0 {
            Ok(ResourceType::MainFrame)
        } else if c == 1 {
            Ok(ResourceType::SubFrame)
        } else if c == 2 {
            Ok(ResourceType::Stylesheet)
        } else if c == 3 {
            Ok(ResourceType::Script)
        } else if c == 4 {
            Ok(ResourceType::Image)
        } else if c == 5 {
            Ok(ResourceType::FontResource)
        } else if c == 6 {
            Ok(ResourceType::SubResource)
        } else if c == 7 {
            Ok(ResourceType::Object)
        } else if c == 8 {
            Ok(ResourceType::Media)
        } else if c == 9 {
            Ok(ResourceType::Worker)
        } else if c == 10 {
            Ok(ResourceType::SharedWorker)
        } else if c == 11 {
            Ok(ResourceType::Prefetch)
        } else if c == 12 {
            Ok(ResourceType::Favicon)
        } else if c == 13 {
            Ok(ResourceType::XHR)
        } else if c == 14 {
            Ok(ResourceType::Ping)
        } else if c == 15 {
            Ok(ResourceType::ServiceWorker)
        } else if c == 16 {
            Ok(ResourceType::CSPReport)
        } else if c == 17 {
            Ok(ResourceType::PluginResource)
        } else {
            Err(UnrecognizedVariant { value: c })
        }
    }
}

/// The kind of content of a post data element.
#[derive(Clone, Copy, Debug, PartialEq, Eq, Structural)]
pub enum PostDataElementType {
    Empty,
    Bytes,
    File,
}

impl PostDataElementType {
    /// The value of the kind in the foreign ABI.
    pub open spec fn spec_raw(self) -> i32 {
        match self {
            PostDataElementType::Empty => 0,
            PostDataElementType::Bytes => 1,
            PostDataElementType::File => 2,
        }
    }

    /// The value of the kind in the foreign ABI.
    pub fn to_raw(&self) -> (r: i32)
        ensures
            r == self.spec_raw(),
    {
        match self {
            PostDataElementType::Empty => 0,
            PostDataElementType::Bytes => 1,
            PostDataElementType::File => 2,
        }
    }

    /// Converts a raw value from the foreign side. A value that names no
    /// kind is reported, never reinterpreted.
    pub fn from_unchecked(c: i32) -> (r: Result<PostDataElementType, UnrecognizedVariant>)
        ensures
            r is Ok <==> 0 <= c < 3,
            r is Ok ==> r->Ok_0.spec_raw() == c,
            r is Err ==> r->Err_0.value == c,
    {
        if c == 0 {
            Ok(PostDataElementType::Empty)
        } else if c == 1 {
            Ok(PostDataElementType::Bytes)
        } else if c == 2 {
            Ok(PostDataElementType::File)
        } else {
            Err(UnrecognizedVariant { value: c })
        }
    }
}

} // verus!
