//! The base images that builds start from.
use vstd::prelude::*;

verus! {

pub const DEBIAN_BASE_IMAGE: &'static str = "ghcr.io/railwayapp/nixpacks:debian-1699315408";

pub const UBUNTU_BASE_IMAGE: &'static str = "ghcr.io/railwayapp/nixpacks:ubuntu-1699315408";

pub const DEFAULT_BASE_IMAGE: &'static str = UBUNTU_BASE_IMAGE;

pub const STANDALONE_IMAGE: &'static str = "ubuntu:jammy";

} // verus!
