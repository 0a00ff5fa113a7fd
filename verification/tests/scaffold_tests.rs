use fabric_scaffold::input::gradle_dsl::GradleDsl;
use fabric_scaffold::input::project_location::ProjectLocation;
use fabric_scaffold::input::UserInput;
use fabric_scaffold::scaffold::git::GitStep;
use fabric_scaffold::scaffold::{
    create, Action, Directive, Materializer, Outcome, Phase, ScaffoldError, Templates,
};

fn sample_input(git: bool) -> UserInput {
    UserInput {
        location: ProjectLocation { mod_name: "MyMod".to_string(), path: "/tmp/MyMod".to_string() },
        maven_group: "com.example".to_string(),
        gradle_dsl: GradleDsl::Groovy,
        minecraft_version: "1.20.4".to_string(),
        yarn_version: "1.20.4+build.3".to_string(),
        fabric_loader_version: "0.15.6".to_string(),
        fabric_api_version: "0.91.0+1.20.4".to_string(),
        version: "0.1.0".to_string(),
        description: "An example mod".to_string(),
        author: "Alex".to_string(),
        license: "MIT".to_string(),
        git,
    }
}

fn sample_templates() -> Templates {
    Templates {
        main_class: "package ${PACKAGE};\npublic class ${CLASS_NAME} { static final String ID = \"${MOD_ID}\"; }\n"
            .to_string(),
        mod_json: "{\"id\":\"${MOD_ID}\",\"name\":\"${MOD_NAME}\",\"version\":\"${VERSION}\",\"description\":\"${DESCRIPTION}\",\"author\":\"${AUTHOR}\",\"license\":\"${LICENSE}\",\"entrypoint\":\"${PACKAGE}.${MAIN_CLASS}\",\"minecraft\":\"${MINECRAFT_VERSION}\",\"java\":\"${JAVA_VERSION}\"}\n"
            .to_string(),
        build_gradle_groovy: "java { toolchain { languageVersion = ${{ java_version }} } }\n"
            .to_string(),
        build_gradle_kotlin: "java { toolchain { languageVersion.set(${{ java_version }}) } }\n"
            .to_string(),
        gradle_properties: "archives_base_name=${{ base_name }}\nmaven_group=${{ maven_group }}\nmod_name=${{ mod_name }}\nmod_version=${{ mod_version }}\nminecraft_version=${{ minecraft_version }}\nyarn_mappings=${{ yarn_mappings }}\nfabric_version=${{ fabric_api_version }}\nloader_version=${{ fabric_loader_version }}\n"
            .to_string(),
    }
}

fn written(plan: &[Action], path: &str) -> String {
    for a in plan {
        if let Action::WriteFile { path: p, contents } = a {
            if p == path {
                return contents.clone();
            }
        }
    }
    panic!("no file written at {}", path);
}

fn has_dir(plan: &[Action], path: &str) -> bool {
    plan.iter().any(|a| matches!(a, Action::CreateDir { path: p } if p == path))
}

fn copy_dest(plan: &[Action], dest: &str) -> bool {
    plan.iter().any(|a| matches!(a, Action::CopyAsset { dest: d, .. } if d == dest))
}

#[test]
fn end_to_end_plan_covers_every_file() {
    let plan = create(&sample_input(false), &sample_templates()).unwrap();

    assert!(has_dir(&plan, "src/main/java"));
    assert!(has_dir(&plan, "src/main/resources"));
    assert!(has_dir(&plan, "src/test/java"));
    assert!(has_dir(&plan, "src/test/resources"));
    assert!(has_dir(&plan, "src/main/java/com/example"));
    assert!(has_dir(&plan, "src/main/resources/assets/mymod"));

    let build = written(&plan, "build.gradle");
    assert!(build.contains("languageVersion = 17"));
    assert!(!build.contains("${{ java_version }}"));

    let props = written(&plan, "gradle.properties");
    assert!(props.contains("archives_base_name=mymod"));
    assert!(props.contains("maven_group=com.example"));
    assert!(props.contains("mod_name=MyMod"));
    assert!(props.contains("mod_version=0.1.0"));
    assert!(props.contains("minecraft_version=1.20.4"));
    assert!(props.contains("yarn_mappings=1.20.4+build.3"));
    assert!(props.contains("fabric_version=0.91.0+1.20.4"));
    assert!(props.contains("loader_version=0.15.6"));
    assert!(!props.contains("${{"));

    let main = written(&plan, "src/main/java/com/example/MyMod.java");
    assert!(main.contains("package com.example;"));
    assert!(main.contains("class MyMod"));
    assert!(main.contains("\"mymod\""));
    assert!(!main.contains("${"));

    let descriptor = written(&plan, "src/main/resources/fabric.mod.json");
    assert!(descriptor.contains("\"id\":\"mymod\""));
    assert!(descriptor.contains("\"name\":\"MyMod\""));
    assert!(descriptor.contains("\"version\":\"0.1.0\""));
    assert!(descriptor.contains("\"description\":\"An example mod\""));
    assert!(descriptor.contains("\"author\":\"Alex\""));
    assert!(descriptor.contains("\"license\":\"MIT\""));
    assert!(descriptor.contains("com.example.MyMod"));
    assert!(descriptor.contains("\"java\":\"17\""));
    assert!(!descriptor.contains("${"));

    assert!(copy_dest(&plan, "src/main/resources/assets/mymod/icon.png"));
    assert!(copy_dest(&plan, ".gitignore"));
    assert!(copy_dest(&plan, ".gitattributes"));
    assert!(copy_dest(&plan, "settings.gradle"));
    assert!(copy_dest(&plan, "gradlew"));
    assert!(copy_dest(&plan, "gradlew.bat"));
}

#[test]
fn kotlin_dsl_picks_its_own_files() {
    let mut input = sample_input(false);
    input.gradle_dsl = GradleDsl::Kotlin;
    let plan = create(&input, &sample_templates()).unwrap();
    let build = written(&plan, "build.gradle.kts");
    assert!(build.contains("languageVersion.set(17)"));
    assert!(copy_dest(&plan, "settings.gradle.kts"));
    assert!(!copy_dest(&plan, "settings.gradle"));
}

#[test]
fn git_steps_come_last_and_only_when_asked() {
    let without = create(&sample_input(false), &sample_templates()).unwrap();
    assert!(!without.iter().any(|a| matches!(a, Action::GitRun { .. })));

    let with = create(&sample_input(true), &sample_templates()).unwrap();
    let n = with.len();
    assert!(matches!(with[n - 3], Action::GitRun { step: GitStep::Init }));
    assert!(matches!(with[n - 2], Action::GitRun { step: GitStep::Add }));
    assert!(matches!(with[n - 1], Action::GitRun { step: GitStep::Commit }));
}

#[test]
fn git_step_arguments() {
    assert_eq!(GitStep::Init.args(), vec!["init"]);
    assert_eq!(GitStep::Add.args(), vec!["add", "."]);
    assert_eq!(GitStep::Commit.args(), vec!["commit", "-m", "init"]);
}

#[test]
fn unparsable_platform_version_fails_the_plan() {
    let mut input = sample_input(false);
    input.minecraft_version = "24w14a".to_string();
    assert_eq!(create(&input, &sample_templates()), Err(ScaffoldError::BadPlatformVersion));
}

#[test]
fn materializer_runs_the_whole_plan_in_order() {
    let plan = create(&sample_input(true), &sample_templates()).unwrap();
    let total = plan.len();
    let mut m = Materializer::new(plan.clone());
    let mut seen = 0;
    while m.next_directive() == Directive::RunStep {
        assert_eq!(*m.current_action(), plan[seen]);
        m.report(true);
        seen += 1;
    }
    assert_eq!(seen, total);
    assert_eq!(m.next_directive(), Directive::Stop);
    assert_eq!(m.outcome(), Some(Outcome::Success));
}

#[test]
fn rollback_cleans_up_and_keeps_the_original_error() {
    let plan = create(&sample_input(true), &sample_templates()).unwrap();
    for failing_step in 2..8 {
        let mut m = Materializer::new(plan.clone());
        for _ in 0..failing_step {
            assert_eq!(m.next_directive(), Directive::RunStep);
            m.report(true);
        }
        assert_eq!(m.next_directive(), Directive::RunStep);
        m.report(false);
        // The failed step orders the cleanup of the target directory.
        assert_eq!(m.next_directive(), Directive::Cleanup);
        assert_eq!(m.phase, Phase::CleaningUp { failed: failing_step });
        assert_eq!(m.outcome(), None);
        // A successful cleanup surfaces the step's own failure.
        m.report(true);
        assert_eq!(m.next_directive(), Directive::Stop);
        assert_eq!(m.outcome(), Some(Outcome::StepFailed { step: failing_step }));
    }
}

#[test]
fn failed_cleanup_surfaces_as_its_own_outcome() {
    let plan = create(&sample_input(false), &sample_templates()).unwrap();
    let mut m = Materializer::new(plan);
    m.report(true);
    m.report(false);
    assert_eq!(m.next_directive(), Directive::Cleanup);
    m.report(false);
    assert_eq!(m.outcome(), Some(Outcome::CleanupFailed { step: 1 }));
}
