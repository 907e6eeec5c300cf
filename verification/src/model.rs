//! The records that the commands hand to the front end, and their views.

use vstd::prelude::*;

verus! {

/// The views of a sequence of values.
pub open spec fn views<T: View>(v: Seq<T>) -> Seq<T::V> {
    Seq::new(v.len(), |i: int| v[i]@)
}

/// A device as `adb devices -l` lists it.
#[derive(Debug, Clone, PartialEq, Eq)]
pub struct Device {
    pub serial: String,
    pub status: String,
    pub model: Option<String>,
    pub device_type: Option<String>,
}

pub struct DeviceView {
    pub serial: Seq<char>,
    pub status: Seq<char>,
    pub model: Option<Seq<char>>,
    pub device_type: Option<Seq<char>>,
}

impl View for Device {
    type V = DeviceView;

    open spec fn view(&self) -> DeviceView {
        DeviceView {
            serial: self.serial@,
            status: self.status@,
            model: self.model.deep_view(),
            device_type: self.device_type.deep_view(),
        }
    }
}

/// Properties and screen metrics of one device.
#[derive(Debug, Clone, PartialEq, Eq)]
pub struct DeviceInfo {
    pub serial: String,
    pub model: String,
    pub manufacturer: String,
    pub android_version: String,
    pub sdk_version: String,
    pub screen_resolution: String,
    pub density: String,
    pub density_dpi: String,
    pub smallest_width: String,
}

pub struct DeviceInfoView {
    pub serial: Seq<char>,
    pub model: Seq<char>,
    pub manufacturer: Seq<char>,
    pub android_version: Seq<char>,
    pub sdk_version: Seq<char>,
    pub screen_resolution: Seq<char>,
    pub density: Seq<char>,
    pub density_dpi: Seq<char>,
    pub smallest_width: Seq<char>,
}

impl View for DeviceInfo {
    type V = DeviceInfoView;

    open spec fn view(&self) -> DeviceInfoView {
        DeviceInfoView {
            serial: self.serial@,
            model: self.model@,
            manufacturer: self.manufacturer@,
            android_version: self.android_version@,
            sdk_version: self.sdk_version@,
            screen_resolution: self.screen_resolution@,
            density: self.density@,
            density_dpi: self.density_dpi@,
            smallest_width: self.smallest_width@,
        }
    }
}

/// An installed package.
#[derive(Debug, Clone, PartialEq, Eq)]
pub struct AppInfo {
    pub package_name: String,
    pub app_name: Option<String>,
    pub version_name: Option<String>,
    pub version_code: Option<String>,
    pub is_system_app: bool,
}

pub struct AppInfoView {
    pub package_name: Seq<char>,
    pub app_name: Option<Seq<char>>,
    pub version_name: Option<Seq<char>>,
    pub version_code: Option<Seq<char>>,
    pub is_system_app: bool,
}

impl View for AppInfo {
    type V = AppInfoView;

    open spec fn view(&self) -> AppInfoView {
        AppInfoView {
            package_name: self.package_name@,
            app_name: self.app_name.deep_view(),
            version_name: self.version_name.deep_view(),
            version_code: self.version_code.deep_view(),
            is_system_app: self.is_system_app,
        }
    }
}

/// One entry of a directory listing.
#[derive(Debug, Clone, PartialEq, Eq)]
pub struct FileInfo {
    pub name: String,
    pub path: String,
    pub is_dir: bool,
    pub size: Option<String>,
    pub permissions: Option<String>,
    pub modified_time: Option<String>,
}

pub struct FileInfoView {
    pub name: Seq<char>,
    pub path: Seq<char>,
    pub is_dir: bool,
    pub size: Option<Seq<char>>,
    pub permissions: Option<Seq<char>>,
    pub modified_time: Option<Seq<char>>,
}

impl View for FileInfo {
    type V = FileInfoView;

    open spec fn view(&self) -> FileInfoView {
        FileInfoView {
            name: self.name@,
            path: self.path@,
            is_dir: self.is_dir,
            size: self.size.deep_view(),
            permissions: self.permissions.deep_view(),
            modified_time: self.modified_time.deep_view(),
        }
    }
}

/// What the previewer shows of a file pulled from the device.
#[derive(Debug, Clone, PartialEq, Eq)]
pub struct FilePreview {
    pub kind: String,
    pub mime: String,
    pub size: u64,
    pub text: Option<String>,
    pub data_url: Option<String>,
    pub temp_path: String,
}

pub struct FilePreviewView {
    pub kind: Seq<char>,
    pub mime: Seq<char>,
    pub size: u64,
    pub text: Option<Seq<char>>,
    pub data_url: Option<Seq<char>>,
    pub temp_path: Seq<char>,
}

impl View for FilePreview {
    type V = FilePreviewView;

    open spec fn view(&self) -> FilePreviewView {
        FilePreviewView {
            kind: self.kind@,
            mime: self.mime@,
            size: self.size,
            text: self.text.deep_view(),
            data_url: self.data_url.deep_view(),
            temp_path: self.temp_path@,
        }
    }
}

/// A runtime permission of a package and its state.
#[derive(Debug, Clone, PartialEq, Eq)]
pub struct PermissionInfo {
    pub name: String,
    pub granted: bool,
    pub flags: String,
}

pub struct PermissionInfoView {
    pub name: Seq<char>,
    pub granted: bool,
    pub flags: Seq<char>,
}

impl View for PermissionInfo {
    type V = PermissionInfoView;

    open spec fn view(&self) -> PermissionInfoView {
        PermissionInfoView { name: self.name@, granted: self.granted, flags: self.flags@ }
    }
}

/// Column names and rendered rows of a table query.
#[derive(Debug, Clone, PartialEq, Eq)]
pub struct SqliteResult {
    pub columns: Vec<String>,
    pub rows: Vec<Vec<String>>,
}

} // verus!
