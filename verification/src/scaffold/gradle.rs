//! The rendered build files and their static companions.

use vstd::prelude::*;
use vstd::string::*;

use crate::input::gradle_dsl::GradleDsl;
use crate::input::UserInput;
use crate::render::{apply_subs, render, subs_view};
use crate::scaffold::{actions_view, Action, ActionV, ScaffoldError, Templates};
use crate::utils::{get_java_version, lower_of, to_lowercase_str};
use crate::version::version_of;

verus! {

/// The build file's name, by build-script variant.
pub open spec fn build_file_name(d: GradleDsl) -> Seq<char> {
    match d {
        GradleDsl::Groovy => "build.gradle"@,
        GradleDsl::Kotlin => "build.gradle.kts"@,
    }
}

/// The bundle file the settings script is copied from.
pub open spec fn settings_source(d: GradleDsl) -> Seq<char> {
    match d {
        GradleDsl::Groovy => "gradle/dsl/groovy/settings.gradle"@,
        GradleDsl::Kotlin => "gradle/dsl/kotlin/settings.gradle.kts"@,
    }
}

/// The settings script's name in the project root.
pub open spec fn settings_dest(d: GradleDsl) -> Seq<char> {
    match d {
        GradleDsl::Groovy => "settings.gradle"@,
        GradleDsl::Kotlin => "settings.gradle.kts"@,
    }
}

/// The build template of the chosen variant.
pub open spec fn build_template(t: Templates, d: GradleDsl) -> Seq<char> {
    match d {
        GradleDsl::Groovy => t.build_gradle_groovy@,
        GradleDsl::Kotlin => t.build_gradle_kotlin@,
    }
}

/// The substitutions of the build-properties file: the lowercased base
/// name and every chosen version.
pub open spec fn gradle_properties_subs(input: UserInput) -> Seq<(Seq<char>, Seq<char>)> {
    seq![
        ("${{ base_name }}"@, lower_of(input.location.mod_name@)),
        ("${{ maven_group }}"@, input.maven_group@),
        ("${{ mod_name }}"@, input.location.mod_name@),
        ("${{ mod_version }}"@, input.version@),
        ("${{ minecraft_version }}"@, input.minecraft_version@),
        ("${{ yarn_mappings }}"@, input.yarn_version@),
        ("${{ fabric_api_version }}"@, input.fabric_api_version@),
        ("${{ fabric_loader_version }}"@, input.fabric_loader_version@),
    ]
}

/// The build-related actions: the rendered build file, the rendered
/// properties file, the wrapper files, and the settings script.
pub open spec fn gradle_plan(input: UserInput, t: Templates, java: Seq<char>) -> Seq<ActionV> {
    seq![
        ActionV::WriteFile {
            path: build_file_name(input.gradle_dsl),
            contents: apply_subs(
                build_template(t, input.gradle_dsl),
                seq![("${{ java_version }}"@, java)],
            ),
        },
        ActionV::WriteFile {
            path: "gradle.properties"@,
            contents: apply_subs(t.gradle_properties@, gradle_properties_subs(input)),
        },
        ActionV::CreateDir { path: "gradle/wrapper"@ },
        ActionV::CopyAsset {
            source: "gradle/wrapper/gradle-wrapper.jar"@,
            dest: "gradle/wrapper/gradle-wrapper.jar"@,
        },
        ActionV::CopyAsset {
            source: "gradle/wrapper/gradle-wrapper.properties"@,
            dest: "gradle/wrapper/gradle-wrapper.properties"@,
        },
        ActionV::CopyAsset { source: "gradle/gradlew"@, dest: "gradlew"@ },
        ActionV::CopyAsset { source: "gradle/gradlew.bat"@, dest: "gradlew.bat"@ },
        ActionV::CopyAsset {
            source: settings_source(input.gradle_dsl),
            dest: settings_dest(input.gradle_dsl),
        },
    ]
}

/// The build-file actions. Fails exactly where the chosen platform
/// version is not a semantic version.
pub fn create(input: &UserInput, t: &Templates) -> (r: Result<Vec<Action>, ScaffoldError>)
    ensures
        version_of(input.minecraft_version@) is Some ==> r is Ok && actions_view(r->Ok_0@)
            == gradle_plan(
            *input,
            *t,
            crate::utils::java_version_for(version_of(input.minecraft_version@)->0),
        ),
        version_of(input.minecraft_version@) is None ==> r is Err && r->Err_0
            == ScaffoldError::BadPlatformVersion,
{
    let java = match get_java_version(input.minecraft_version.as_str()) {
        Some(j) => j,
        None => {
            return Err(ScaffoldError::BadPlatformVersion);
        },
    };
    let ghost javav = crate::utils::java_version_for(version_of(input.minecraft_version@)->0);

    let mut build_subs: Vec<(String, String)> = Vec::new();
    build_subs.push((String::from_str("${{ java_version }}"), String::from_str(java)));
    proof {
        assert(subs_view(build_subs@) =~= seq![("${{ java_version }}"@, javav)]);
    }
    let build_contents = match input.gradle_dsl {
        GradleDsl::Groovy => render(t.build_gradle_groovy.as_str(), &build_subs),
        GradleDsl::Kotlin => render(t.build_gradle_kotlin.as_str(), &build_subs),
    };
    let build_name = match input.gradle_dsl {
        GradleDsl::Groovy => String::from_str("build.gradle"),
        GradleDsl::Kotlin => String::from_str("build.gradle.kts"),
    };

    let mut prop_subs: Vec<(String, String)> = Vec::new();
    prop_subs.push(
        (
            String::from_str("${{ base_name }}"),
            to_lowercase_str(input.location.mod_name.as_str()),
        ),
    );
    prop_subs.push((String::from_str("${{ maven_group }}"), input.maven_group.clone()));
    prop_subs.push((String::from_str("${{ mod_name }}"), input.location.mod_name.clone()));
    prop_subs.push((String::from_str("${{ mod_version }}"), input.version.clone()));
    prop_subs.push(
        (String::from_str("${{ minecraft_version }}"), input.minecraft_version.clone()),
    );
    prop_subs.push((String::from_str("${{ yarn_mappings }}"), input.yarn_version.clone()));
    prop_subs.push(
        (String::from_str("${{ fabric_api_version }}"), input.fabric_api_version.clone()),
    );
    prop_subs.push(
        (String::from_str("${{ fabric_loader_version }}"), input.fabric_loader_version.clone()),
    );
    proof {
        assert(subs_view(prop_subs@) =~= gradle_properties_subs(*input));
    }
    let prop_contents = render(t.gradle_properties.as_str(), &prop_subs);

    let mut r: Vec<Action> = Vec::new();
    r.push(Action::WriteFile { path: build_name, contents: build_contents });
    r.push(Action::WriteFile { path: String::from_str("gradle.properties"), contents: prop_contents });
    r.push(Action::CreateDir { path: String::from_str("gradle/wrapper") });
    r.push(
        Action::CopyAsset {
            source: String::from_str("gradle/wrapper/gradle-wrapper.jar"),
            dest: String::from_str("gradle/wrapper/gradle-wrapper.jar"),
        },
    );
    r.push(
        Action::CopyAsset {
            source: String::from_str("gradle/wrapper/gradle-wrapper.properties"),
            dest: String::from_str("gradle/wrapper/gradle-wrapper.properties"),
        },
    );
    r.push(
        Action::CopyAsset {
            source: String::from_str("gradle/gradlew"),
            dest: String::from_str("gradlew"),
        },
    );
    r.push(
        Action::CopyAsset {
            source: String::from_str("gradle/gradlew.bat"),
            dest: String::from_str("gradlew.bat"),
        },
    );
    let settings = match input.gradle_dsl {
        GradleDsl::Groovy => Action::CopyAsset {
            source: String::from_str("gradle/dsl/groovy/settings.gradle"),
            dest: String::from_str("settings.gradle"),
        },
        GradleDsl::Kotlin => Action::CopyAsset {
            source: String::from_str("gradle/dsl/kotlin/settings.gradle.kts"),
            dest: String::from_str("settings.gradle.kts"),
        },
    };
    r.push(settings);
    proof {
        assert(actions_view(r@) =~= gradle_plan(*input, *t, javav));
    }
    Ok(r)
}

} // verus!
