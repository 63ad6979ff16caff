#!/bin/sh
# Prints the git tag on HEAD, or the commit where there is no tag. Use it as
#   BUILD_VERSION="$(extras/build_version.sh)" cargo build --release
git describe --tags --exact-match HEAD 2>/dev/null || git rev-parse --short=12 HEAD
