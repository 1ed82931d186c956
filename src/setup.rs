//! The host platform and the decisions of environment bootstrap.
use vstd::prelude::*;
use vstd::string::StringExecFns;

verus! {

/// The operating systems that bootstrap tells apart.
#[derive(Debug, Clone, Copy, PartialEq, Eq)]
pub enum Platform {
    KaliLinux,
    Windows,
    OtherLinux,
    Unsupported,
}

/// The family of operating system that the host reports.
#[derive(Debug, Clone, Copy, PartialEq, Eq)]
pub enum OsFamily {
    Kali,
    Windows,
    Linux,
    Other,
}

/// The display name of a platform.
pub open spec fn platform_name(p: Platform) -> Seq<char> {
    match p {
        Platform::KaliLinux => "Kali Linux"@,
        Platform::Windows => "Windows"@,
        Platform::OtherLinux => "Linux (Other)"@,
        Platform::Unsupported => "Unsupported OS"@,
    }
}

impl Platform {
    /// The display name of this platform.
    pub fn name(&self) -> (r: String)
        ensures
            r@ == platform_name(*self),
    {
        match self {
            Platform::KaliLinux => String::from_str("Kali Linux"),
            Platform::Windows => String::from_str("Windows"),
            Platform::OtherLinux => String::from_str("Linux (Other)"),
            Platform::Unsupported => String::from_str("Unsupported OS"),
        }
    }
}

/// The platform that an operating-system family maps to.
pub open spec fn platform_of(os: OsFamily) -> Platform {
    match os {
        OsFamily::Kali => Platform::KaliLinux,
        OsFamily::Windows => Platform::Windows,
        OsFamily::Linux => Platform::OtherLinux,
        OsFamily::Other => Platform::Unsupported,
    }
}

/// The platform of a host that reports the family `os`.
pub fn detect_platform(os: OsFamily) -> (r: Platform)
    ensures
        r == platform_of(os),
{
    match os {
        OsFamily::Kali => Platform::KaliLinux,
        OsFamily::Windows => Platform::Windows,
        OsFamily::Linux => Platform::OtherLinux,
        OsFamily::Other => Platform::Unsupported,
    }
}

/// How a missing program gets installed.
#[derive(Debug, Clone, Copy, PartialEq, Eq)]
pub enum InstallRoute {
    /// The program is already there.
    Present,
    /// Through the Debian package manager.
    Apt,
    /// Through the Windows package manager.
    Winget,
    /// Through the vendor's install script.
    Script,
    /// Through the vendor's Windows installer.
    WindowsInstaller,
    /// Not automatically on this platform.
    NotSupported,
}

/// The host's platform and whether the process runs with elevated rights.
pub struct SystemSetup {
    pub platform: Platform,
    is_admin: bool,
}

impl SystemSetup {
    /// The setup of a host with the given platform and rights.
    pub fn new(platform: Platform, is_admin: bool) -> (r: SystemSetup)
        ensures
            r.spec_platform() == platform,
            r.spec_is_admin() == is_admin,
    {
        SystemSetup { platform, is_admin }
    }

    pub closed spec fn spec_platform(&self) -> Platform {
        self.platform
    }

    pub closed spec fn spec_is_admin(&self) -> bool {
        self.is_admin
    }

    /// Whether the process runs with elevated rights.
    pub fn is_admin(&self) -> (r: bool)
        ensures
            r == self.spec_is_admin(),
    {
        self.is_admin
    }

    /// How a tool is made available: nothing to do when it is found; the
    /// package manager of Kali or of Windows otherwise; on any other
    /// platform automatic installation is not supported.
    pub fn check_and_install_tool(&self, tool_found: bool) -> (r: InstallRoute)
        ensures
            r == (if tool_found {
                InstallRoute::Present
            } else {
                match self.spec_platform() {
                    Platform::KaliLinux => InstallRoute::Apt,
                    Platform::Windows => InstallRoute::Winget,
                    _ => InstallRoute::NotSupported,
                }
            }),
    {
        if tool_found {
            return InstallRoute::Present;
        }
        match self.platform {
            Platform::KaliLinux => InstallRoute::Apt,
            Platform::Windows => InstallRoute::Winget,
            _ => InstallRoute::NotSupported,
        }
    }

    /// How the model runtime is made available: nothing to do when it is
    /// installed; the install script on either Linux; the installer on
    /// Windows; otherwise not supported.
    pub fn ensure_ollama(&self, installed: bool) -> (r: InstallRoute)
        ensures
            r == (if installed {
                InstallRoute::Present
            } else {
                match self.spec_platform() {
                    Platform::KaliLinux | Platform::OtherLinux => InstallRoute::Script,
                    Platform::Windows => InstallRoute::WindowsInstaller,
                    _ => InstallRoute::NotSupported,
                }
            }),
    {
        if installed {
            return InstallRoute::Present;
        }
        match self.platform {
            Platform::KaliLinux | Platform::OtherLinux => InstallRoute::Script,
            Platform::Windows => InstallRoute::WindowsInstaller,
            _ => InstallRoute::NotSupported,
        }
    }
}

} // verus!
